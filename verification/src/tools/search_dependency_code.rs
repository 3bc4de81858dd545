//! The `search_dependency_code` tool: checking that a Rust dependency is
//! declared and locked, and at which version, before its source is searched.
use vstd::prelude::*;

use crate::error::{Error, ErrorKind};
use crate::text::{spec_join, str_eq, strings_view};
use crate::tools::run_command::join_strings;

verus! {

broadcast use vstd::string::group_string_axioms;

/// The languages whose dependencies can be searched.
#[derive(Clone, Copy, Debug, PartialEq, Eq, Structural)]
pub enum SupportedLanguages {
    Rust,
}

/// The arguments of the `search_dependency_code` tool.
#[derive(Debug)]
pub struct SearchDependencyCodeArgs {
    pub prompt: String,
    pub language: SupportedLanguages,
    pub dependency: String,
    pub version: Option<String>,
}

/// The `search_dependency_code` tool.
#[derive(Debug)]
pub struct SearchDependencyCode;

/// What the logic reads of a `Cargo.toml`: the names in each of its three
/// dependency tables (`None` where the key is missing or not a table).
#[derive(Debug)]
pub struct CargoManifest {
    pub dependencies: Option<Vec<String>>,
    pub dev_dependencies: Option<Vec<String>>,
    pub build_dependencies: Option<Vec<String>>,
}

/// One `[[package]]` of a `Cargo.lock`: its name and version, where they are
/// strings.
#[derive(Debug)]
pub struct LockedPackage {
    pub name: Option<String>,
    pub version: Option<String>,
}

/// What the logic reads of a `Cargo.lock`: its packages (none when the key
/// is missing or not an array).
#[derive(Debug)]
pub struct CargoLock {
    pub packages: Vec<LockedPackage>,
}

/// A package of `cargo metadata`: its name, version and manifest path,
/// where they are strings.
#[derive(Debug)]
pub struct MetadataPackage {
    pub name: Option<String>,
    pub version: Option<String>,
    pub manifest_path: Option<String>,
}

/// The table lists `name` among its keys.
pub open spec fn table_has(t: Option<Vec<String>>, name: Seq<char>) -> bool {
    match t {
        Some(keys) => strings_view(keys@).contains(name),
        None => false,
    }
}

/// The manifest declares `name` in one of its dependency tables.
pub open spec fn declares(m: CargoManifest, name: Seq<char>) -> bool {
    table_has(m.dependencies, name) || table_has(m.dev_dependencies, name) || table_has(
        m.build_dependencies,
        name,
    )
}

/// The versions locked for `name`, in the lock's order.
pub open spec fn locked_versions(packages: Seq<LockedPackage>, name: Seq<char>) -> Seq<Seq<char>>
    decreases packages.len(),
{
    if packages.len() == 0 {
        seq![]
    } else {
        let rest = locked_versions(packages.drop_last(), name);
        let p = packages.last();
        match (p.name, p.version) {
            (Some(n), Some(v)) => if n@ == name {
                rest.push(v@)
            } else {
                rest
            },
            _ => rest,
        }
    }
}

/// What checking a dependency gives: the version to search, or the error's
/// kind and message.
pub open spec fn spec_validate(
    dep: Seq<char>,
    requested: Option<Seq<char>>,
    manifest: CargoManifest,
    lock: Seq<LockedPackage>,
) -> Result<Seq<char>, (ErrorKind, Seq<char>)> {
    let versions = locked_versions(lock, dep);
    if !declares(manifest, dep) {
        Err(
            (
                ErrorKind::NotFound,
                "Dependency '"@ + dep
                    + "' not found in Cargo.toml (checked dependencies, dev-dependencies, build-dependencies)"@,
            ),
        )
    } else if versions.len() == 0 {
        Err(
            (
                ErrorKind::NotFound,
                "Dependency '"@ + dep
                    + "' not found in Cargo.lock. Run 'cargo build' to generate or update it."@,
            ),
        )
    } else {
        match requested {
            Some(r) => if versions.contains(r) {
                Ok(r)
            } else {
                Err(
                    (
                        ErrorKind::InvalidInput,
                        "Version mismatch: requested '"@ + r + "' but Cargo.lock has: "@ + spec_join(
                            versions,
                            ", "@,
                        ),
                    ),
                )
            },
            None => if versions.len() > 1 {
                Err(
                    (
                        ErrorKind::InvalidInput,
                        "Multiple versions of '"@ + dep + "' in Cargo.lock: "@ + spec_join(
                            versions,
                            ", "@,
                        ) + ". Specify which version to search."@,
                    ),
                )
            } else {
                Ok(versions[0])
            },
        }
    }
}

/// A dependency written in any of the manifest's three dependency tables
/// (`[dependencies]`, `[dev-dependencies]`, `[build-dependencies]`) and
/// locked at exactly one version is found at that version when no version is
/// asked for; asked for at a locked version, it is found at that version.
pub proof fn lemma_declared_dependency_is_found(
    dep: Seq<char>,
    manifest: CargoManifest,
    lock: Seq<LockedPackage>,
    v: Seq<char>,
)
    requires
        (manifest.dependencies matches Some(k) && strings_view(k@).contains(dep)) || (
        manifest.dev_dependencies matches Some(k) && strings_view(k@).contains(dep)) || (
        manifest.build_dependencies matches Some(k) && strings_view(k@).contains(dep)),
        locked_versions(lock, dep).contains(v),
    ensures
        spec_validate(dep, Some(v), manifest, lock) == Ok::<Seq<char>, (ErrorKind, Seq<char>)>(v),
        locked_versions(lock, dep) == seq![v] ==> spec_validate(dep, None, manifest, lock) == Ok::<
            Seq<char>,
            (ErrorKind, Seq<char>),
        >(v),
{
}

/// A dependency that none of the three tables holds is never found.
pub proof fn lemma_undeclared_dependency_is_refused(
    dep: Seq<char>,
    requested: Option<Seq<char>>,
    manifest: CargoManifest,
    lock: Seq<LockedPackage>,
)
    requires
        !(manifest.dependencies matches Some(k) && strings_view(k@).contains(dep)),
        !(manifest.dev_dependencies matches Some(k) && strings_view(k@).contains(dep)),
        !(manifest.build_dependencies matches Some(k) && strings_view(k@).contains(dep)),
    ensures
        spec_validate(dep, requested, manifest, lock) matches Err((kind, _)) && kind
            == ErrorKind::NotFound,
{
}

/// Whether `name` is among `keys`.
fn has_key(keys: &Option<Vec<String>>, name: &str) -> (r: bool)
    ensures
        r == table_has(*keys, name@),
{
    match keys {
        None => false,
        Some(k) => {
            let mut i: usize = 0;
            while i < k.len()
                invariant
                    *keys == Some(*k),
                    i <= k@.len(),
                    forall|j: int| 0 <= j < i ==> strings_view(k@)[j] != name@,
                decreases k@.len() - i,
            {
                if str_eq(k[i].as_str(), name) {
                    assert(strings_view(k@)[i as int] == name@);
                    return true;
                }
                i += 1;
            }
            proof {
                if strings_view(k@).contains(name@) {
                    let j = choose|j: int| 0 <= j < strings_view(k@).len() && strings_view(k@)[j] == name@;
                    assert(strings_view(k@)[j] != name@);
                }
            }
            false
        },
    }
}

/// The versions locked for `name`.
fn versions_of(lock: &CargoLock, name: &str) -> (r: Vec<String>)
    ensures
        strings_view(r@) == locked_versions(lock.packages@, name@),
{
    let mut out: Vec<String> = Vec::new();
    let mut i: usize = 0;
    while i < lock.packages.len()
        invariant
            i <= lock.packages@.len(),
            strings_view(out@) == locked_versions(lock.packages@.take(i as int), name@),
        decreases lock.packages@.len() - i,
    {
        let ghost ps = lock.packages@;
        assert(ps.take(i + 1).drop_last() =~= ps.take(i as int));
        assert(ps.take(i + 1).last() == ps[i as int]);
        let p = &lock.packages[i];
        match (&p.name, &p.version) {
            (Some(n), Some(v)) => {
                if str_eq(n.as_str(), name) {
                    let ghost before = strings_view(out@);
                    out.push(v.clone());
                    assert(strings_view(out@) =~= before.push(v@));
                }
            },
            _ => {},
        }
        i += 1;
    }
    assert(lock.packages@.take(lock.packages@.len() as int) =~= lock.packages@);
    out
}

/// Whether `v` is among `versions`.
fn contains_version(versions: &Vec<String>, v: &str) -> (r: bool)
    ensures
        r == strings_view(versions@).contains(v@),
{
    let mut i: usize = 0;
    while i < versions.len()
        invariant
            i <= versions@.len(),
            forall|j: int| 0 <= j < i ==> strings_view(versions@)[j] != v@,
        decreases versions@.len() - i,
    {
        if str_eq(versions[i].as_str(), v) {
            assert(strings_view(versions@)[i as int] == v@);
            return true;
        }
        i += 1;
    }
    proof {
        if strings_view(versions@).contains(v@) {
            let j = choose|j: int| 0 <= j < strings_view(versions@).len() && strings_view(versions@)[j] == v@;
            assert(strings_view(versions@)[j] != v@);
        }
    }
    false
}

/// Checks a Rust dependency against the project's manifest and lock: it
/// must be declared in one of the dependency tables and locked; a requested
/// version must be one of the locked ones; without one, a single locked
/// version is the answer and several are an error.
pub fn validate_rust_dependency(
    dep_name: &str,
    dep_version: Option<&str>,
    manifest: &CargoManifest,
    lock: &CargoLock,
) -> (r: Result<String, Error>)
    ensures
        match spec_validate(
            dep_name@,
            match dep_version {
                Some(v) => Some(v@),
                None => None,
            },
            *manifest,
            lock.packages@,
        ) {
            Ok(v) => r matches Ok(x) && x@ == v,
            Err((k, m)) => r matches Err(e) && e.kind == k && e.message@ == m,
        },
{
    let declared = has_key(&manifest.dependencies, dep_name) || has_key(
        &manifest.dev_dependencies,
        dep_name,
    ) || has_key(&manifest.build_dependencies, dep_name);
    if !declared {
        let mut m = "Dependency '".to_string();
        m.append(dep_name);
        m.append(
            "' not found in Cargo.toml (checked dependencies, dev-dependencies, build-dependencies)",
        );
        return Err(Error { kind: ErrorKind::NotFound, message: m });
    }
    let versions = versions_of(lock, dep_name);
    if versions.len() == 0 {
        let mut m = "Dependency '".to_string();
        m.append(dep_name);
        m.append("' not found in Cargo.lock. Run 'cargo build' to generate or update it.");
        return Err(Error { kind: ErrorKind::NotFound, message: m });
    }
    match dep_version {
        Some(requested) => {
            if !contains_version(&versions, requested) {
                let joined = join_strings(versions.as_slice(), ", ");
                let mut m = "Version mismatch: requested '".to_string();
                m.append(requested);
                m.append("' but Cargo.lock has: ");
                m.append(joined.as_str());
                return Err(Error { kind: ErrorKind::InvalidInput, message: m });
            }
            Ok(requested.to_string())
        },
        None => {
            if versions.len() > 1 {
                let joined = join_strings(versions.as_slice(), ", ");
                let mut m = "Multiple versions of '".to_string();
                m.append(dep_name);
                m.append("' in Cargo.lock: ");
                m.append(joined.as_str());
                m.append(". Specify which version to search.");
                return Err(Error { kind: ErrorKind::InvalidInput, message: m });
            }
            Ok(versions[0].clone())
        },
    }
}

/// Checks the dependency that a call asks about, by the rules of its
/// language, against the project's manifest and lock: the version whose
/// source is searched.
pub fn validate_dependency_source(
    args: &SearchDependencyCodeArgs,
    manifest: &CargoManifest,
    lock: &CargoLock,
) -> (r: Result<String, Error>)
    ensures
        args.language == SupportedLanguages::Rust ==> match spec_validate(
            args.dependency@,
            match args.version {
                Some(v) => Some(v@),
                None => None,
            },
            *manifest,
            lock.packages@,
        ) {
            Ok(v) => r matches Ok(x) && x@ == v,
            Err((k, m)) => r matches Err(e) && e.kind == k && e.message@ == m,
        },
{
    match args.language {
        SupportedLanguages::Rust => {
            let version: Option<&str> = match &args.version {
                Some(v) => Some(v.as_str()),
                None => None,
            };
            validate_rust_dependency(args.dependency.as_str(), version, manifest, lock)
        },
    }
}

/// The manifest path of the first package of that name and version.
pub open spec fn spec_find_manifest(
    packages: Seq<MetadataPackage>,
    name: Seq<char>,
    version: Seq<char>,
) -> Option<Seq<char>>
    decreases packages.len(),
{
    if packages.len() == 0 {
        None
    } else {
        let p = packages[0];
        match (p.name, p.version, p.manifest_path) {
            (Some(n), Some(v), Some(m)) => if n@ == name && v@ == version {
                Some(m@)
            } else {
                spec_find_manifest(packages.drop_first(), name, version)
            },
            _ => spec_find_manifest(packages.drop_first(), name, version),
        }
    }
}

/// Finds the manifest path of the dependency among the packages that
/// `cargo metadata` lists; an error of kind `NotFound` when none matches.
pub fn find_manifest_path(packages: &Vec<MetadataPackage>, dep_name: &str, dep_version: &str) -> (r:
    Result<String, Error>)
    ensures
        match spec_find_manifest(packages@, dep_name@, dep_version@) {
            Some(m) => r matches Ok(x) && x@ == m,
            None => r matches Err(e) && e.kind == ErrorKind::NotFound && e.message@ == "Dependency "@
                + dep_name@ + " "@ + dep_version@ + " not found in cargo metadata"@,
        },
{
    let mut i: usize = 0;
    assert(packages@.skip(0) =~= packages@);
    while i < packages.len()
        invariant
            i <= packages@.len(),
            spec_find_manifest(packages@.skip(i as int), dep_name@, dep_version@) == spec_find_manifest(
                packages@,
                dep_name@,
                dep_version@,
            ),
        decreases packages@.len() - i,
    {
        assert(packages@.skip(i as int)[0] == packages@[i as int]);
        assert(packages@.skip(i as int).drop_first() =~= packages@.skip(i + 1));
        let p = &packages[i];
        match (&p.name, &p.version, &p.manifest_path) {
            (Some(n), Some(v), Some(m)) => {
                if str_eq(n.as_str(), dep_name) && str_eq(v.as_str(), dep_version) {
                    return Ok(m.clone());
                }
            },
            _ => {},
        }
        i += 1;
    }
    let mut msg = "Dependency ".to_string();
    msg.append(dep_name);
    msg.append(" ");
    msg.append(dep_version);
    msg.append(" not found in cargo metadata");
    Err(Error { kind: ErrorKind::NotFound, message: msg })
}

/// The task given to the agent that searches the source at `source_path`.
pub fn investigation_task(source_path: &str, prompt: &str) -> (r: String)
    ensures
        r@ == "Investigate the following in the dependency source code located at:\n"@ + source_path@
            + "\n\n"@ + prompt@ + "\n\nAll paths must be within the dependency source directory above."@,
{
    let mut s = "Investigate the following in the dependency source code located at:\n".to_string();
    s.append(source_path);
    s.append("\n\n");
    s.append(prompt);
    s.append("\n\nAll paths must be within the dependency source directory above.");
    s
}

} // verus!
