use vstd::prelude::*;
use vstd::string::*;

verus! {

/// The supported archive containers.
#[derive(Clone, Copy, Debug, PartialEq, Eq, Structural)]
pub enum ContainerFormat {
    Tar,
    TarGz,
    Zip,
}

/// The supported digest algorithms.
#[derive(Clone, Copy, Debug, PartialEq, Eq, Structural)]
pub enum HashAlgorithm {
    Md5,
    Sha256,
    Sha512,
}

/// The supported deploy targets.
#[derive(Clone, Copy, Debug, PartialEq, Eq, Structural)]
pub enum DeployTarget {
    /// Copies the cooked files into a local directory.
    Filesystem,
}

pub open spec fn container_tag(f: ContainerFormat) -> Seq<char> {
    match f {
        ContainerFormat::Tar => seq!['t', 'a', 'r'],
        ContainerFormat::TarGz => seq!['t', 'a', 'r', '.', 'g', 'z'],
        ContainerFormat::Zip => seq!['z', 'i', 'p'],
    }
}

pub open spec fn hash_tag(h: HashAlgorithm) -> Seq<char> {
    match h {
        HashAlgorithm::Md5 => seq!['m', 'd', '5'],
        HashAlgorithm::Sha256 => seq!['s', 'h', 'a', '2', '5', '6'],
        HashAlgorithm::Sha512 => seq!['s', 'h', 'a', '5', '1', '2'],
    }
}

pub open spec fn deploy_tag(t: DeployTarget) -> Seq<char> {
    match t {
        DeployTarget::Filesystem => seq!['f', 's'],
    }
}

pub open spec fn container_supported(tag: Seq<char>) -> bool {
    exists|f: ContainerFormat| container_tag(f) == tag
}

pub open spec fn hash_supported(tag: Seq<char>) -> bool {
    exists|h: HashAlgorithm| hash_tag(h) == tag
}

pub open spec fn deploy_supported(tag: Seq<char>) -> bool {
    exists|t: DeployTarget| deploy_tag(t) == tag
}

/// The container format named by `tag`, if it is supported.
pub fn parse_container(tag: &String) -> (r: Option<ContainerFormat>)
    ensures
        r is Some <==> container_supported(tag@),
        r matches Some(f) ==> container_tag(f) == tag@,
{
    proof {
        reveal_strlit("tar");
        assert("tar"@ =~= container_tag(ContainerFormat::Tar));
        reveal_strlit("tar.gz");
        assert("tar.gz"@ =~= container_tag(ContainerFormat::TarGz));
        reveal_strlit("zip");
        assert("zip"@ =~= container_tag(ContainerFormat::Zip));
    }
    if *tag == String::from_str("tar") {
        Some(ContainerFormat::Tar)
    } else if *tag == String::from_str("tar.gz") {
        Some(ContainerFormat::TarGz)
    } else if *tag == String::from_str("zip") {
        Some(ContainerFormat::Zip)
    } else {
        assert forall|f: ContainerFormat| container_tag(f) != tag@ by {
            match f {
                ContainerFormat::Tar => assert(tag@ != "tar"@),
                ContainerFormat::TarGz => assert(tag@ != "tar.gz"@),
                ContainerFormat::Zip => assert(tag@ != "zip"@),
            }
        }
        None
    }
}

/// The digest algorithm named by `tag`, if it is supported.
pub fn parse_hash(tag: &String) -> (r: Option<HashAlgorithm>)
    ensures
        r is Some <==> hash_supported(tag@),
        r matches Some(h) ==> hash_tag(h) == tag@,
{
    proof {
        reveal_strlit("md5");
        assert("md5"@ =~= hash_tag(HashAlgorithm::Md5));
        reveal_strlit("sha256");
        assert("sha256"@ =~= hash_tag(HashAlgorithm::Sha256));
        reveal_strlit("sha512");
        assert("sha512"@ =~= hash_tag(HashAlgorithm::Sha512));
    }
    if *tag == String::from_str("md5") {
        Some(HashAlgorithm::Md5)
    } else if *tag == String::from_str("sha256") {
        Some(HashAlgorithm::Sha256)
    } else if *tag == String::from_str("sha512") {
        Some(HashAlgorithm::Sha512)
    } else {
        assert forall|h: HashAlgorithm| hash_tag(h) != tag@ by {
            match h {
                HashAlgorithm::Md5 => assert(tag@ != "md5"@),
                HashAlgorithm::Sha256 => assert(tag@ != "sha256"@),
                HashAlgorithm::Sha512 => assert(tag@ != "sha512"@),
            }
        }
        None
    }
}

/// The deploy target named by `tag`, if it is supported.
pub fn parse_deploy_target(tag: &String) -> (r: Option<DeployTarget>)
    ensures
        r is Some <==> deploy_supported(tag@),
        r matches Some(t) ==> deploy_tag(t) == tag@,
{
    proof {
        reveal_strlit("fs");
        assert("fs"@ =~= deploy_tag(DeployTarget::Filesystem));
    }
    if *tag == String::from_str("fs") {
        Some(DeployTarget::Filesystem)
    } else {
        assert forall|t: DeployTarget| deploy_tag(t) != tag@ by {
            match t {
                DeployTarget::Filesystem => assert(tag@ != "fs"@),
            }
        }
        None
    }
}

/// The configured tag of a container format, also its file extension.
pub fn container_extension(f: ContainerFormat) -> (r: &'static str)
    ensures
        r@ == container_tag(f),
{
    proof {
        reveal_strlit("tar");
        reveal_strlit("tar.gz");
        reveal_strlit("zip");
        assert("tar"@ =~= container_tag(ContainerFormat::Tar));
        assert("tar.gz"@ =~= container_tag(ContainerFormat::TarGz));
        assert("zip"@ =~= container_tag(ContainerFormat::Zip));
    }
    match f {
        ContainerFormat::Tar => "tar",
        ContainerFormat::TarGz => "tar.gz",
        ContainerFormat::Zip => "zip",
    }
}

/// The configured tag of a digest algorithm, also its sidecar's extension.
pub fn hash_extension(h: HashAlgorithm) -> (r: &'static str)
    ensures
        r@ == hash_tag(h),
{
    proof {
        reveal_strlit("md5");
        reveal_strlit("sha256");
        reveal_strlit("sha512");
        assert("md5"@ =~= hash_tag(HashAlgorithm::Md5));
        assert("sha256"@ =~= hash_tag(HashAlgorithm::Sha256));
        assert("sha512"@ =~= hash_tag(HashAlgorithm::Sha512));
    }
    match h {
        HashAlgorithm::Md5 => "md5",
        HashAlgorithm::Sha256 => "sha256",
        HashAlgorithm::Sha512 => "sha512",
    }
}

/// `{cook_directory}/{name}-{version}.{extension}`
pub open spec fn archive_path(cook_directory: Seq<char>, name: Seq<char>, version: Seq<char>, f: ContainerFormat) -> Seq<char> {
    cook_directory + seq!['/'] + name + seq!['-'] + version + seq!['.'] + container_tag(f)
}

/// `{archive}.{algorithm}`
pub open spec fn sidecar_path(archive: Seq<char>, h: HashAlgorithm) -> Seq<char> {
    archive + seq!['.'] + hash_tag(h)
}

/// The path of the archive of one container format.
pub fn archive_name(cook_directory: &str, name: &str, version: &str, f: ContainerFormat) -> (r: String)
    ensures
        r@ == archive_path(cook_directory@, name@, version@, f),
{
    proof {
        reveal_strlit("/");
        reveal_strlit("-");
        reveal_strlit(".");
    }
    let mut r = String::from_str(cook_directory);
    r.append("/");
    r.append(name);
    r.append("-");
    r.append(version);
    r.append(".");
    r.append(container_extension(f));
    r
}

/// The path of the digest sidecar of one archive and one algorithm.
pub fn hash_file_name(archive: &str, h: HashAlgorithm) -> (r: String)
    ensures
        r@ == sidecar_path(archive@, h),
{
    proof {
        reveal_strlit(".");
    }
    let mut r = String::from_str(archive);
    r.append(".");
    r.append(hash_extension(h));
    r
}

#[derive(Clone, Copy, Debug, PartialEq, Eq, Structural)]
pub enum ConfigError {
    /// The container tag at this index is not supported.
    UnsupportedContainer(usize),
    /// The hash tag at this index is not supported.
    UnsupportedHash(usize),
    /// The deploy target tag at this index is not supported.
    UnsupportedDeployTarget(usize),
}

/// The validated formats, algorithms and deploy targets of one run, in
/// configuration order.
pub struct Plan {
    pub containers: Vec<ContainerFormat>,
    pub hashes: Vec<HashAlgorithm>,
    pub targets: Vec<DeployTarget>,
}

pub open spec fn tags_of(tags: Option<Vec<String>>) -> Seq<String> {
    match tags {
        Some(v) => v@,
        None => seq![],
    }
}

pub open spec fn all_containers_supported(tags: Seq<String>) -> bool {
    forall|i: int| 0 <= i < tags.len() ==> container_supported(#[trigger] tags[i]@)
}

pub open spec fn all_hashes_supported(tags: Seq<String>) -> bool {
    forall|i: int| 0 <= i < tags.len() ==> hash_supported(#[trigger] tags[i]@)
}

pub open spec fn all_targets_supported(tags: Seq<String>) -> bool {
    forall|i: int| 0 <= i < tags.len() ==> deploy_supported(#[trigger] tags[i]@)
}

/// Whether every configured tag names a supported format, algorithm or target.
pub open spec fn config_valid(containers: Seq<String>, hashes: Seq<String>, targets: Seq<String>) -> bool {
    all_containers_supported(containers) && all_hashes_supported(hashes) && all_targets_supported(targets)
}

/// What the plan holds, tag for tag.
pub open spec fn plan_matches(p: Plan, containers: Seq<String>, hashes: Seq<String>, targets: Seq<String>) -> bool {
    &&& p.containers@.len() == containers.len()
    &&& (forall|i: int| 0 <= i < containers.len() ==> container_tag(#[trigger] p.containers@[i]) == containers[i]@)
    &&& p.hashes@.len() == hashes.len()
    &&& (forall|i: int| 0 <= i < hashes.len() ==> hash_tag(#[trigger] p.hashes@[i]) == hashes[i]@)
    &&& p.targets@.len() == targets.len()
    &&& (forall|i: int| 0 <= i < targets.len() ==> deploy_tag(#[trigger] p.targets@[i]) == targets[i]@)
}

/// Which error validation reports: the first unsupported container tag, else
/// the first unsupported hash tag, else the first unsupported target tag.
pub open spec fn config_error_ok(e: ConfigError, containers: Seq<String>, hashes: Seq<String>, targets: Seq<String>) -> bool {
    match e {
        ConfigError::UnsupportedContainer(i) => i < containers.len() && !container_supported(containers[i as int]@)
            && all_containers_supported(containers.subrange(0, i as int)),
        ConfigError::UnsupportedHash(i) => all_containers_supported(containers) && i < hashes.len()
            && !hash_supported(hashes[i as int]@) && all_hashes_supported(hashes.subrange(0, i as int)),
        ConfigError::UnsupportedDeployTarget(i) => all_containers_supported(containers) && all_hashes_supported(hashes)
            && i < targets.len() && !deploy_supported(targets[i as int]@)
            && all_targets_supported(targets.subrange(0, i as int)),
    }
}

/// Checks every container, hash and deploy target tag against the supported
/// sets, before any work is done, and stops at the first unsupported one.
pub fn parse_config(containers: &Vec<String>, hashes: &Option<Vec<String>>, targets: &Option<Vec<String>>) -> (r: Result<Plan, ConfigError>)
    ensures
        r is Ok <==> config_valid(containers@, tags_of(*hashes), tags_of(*targets)),
        r matches Ok(p) ==> plan_matches(p, containers@, tags_of(*hashes), tags_of(*targets)),
        r matches Err(e) ==> config_error_ok(e, containers@, tags_of(*hashes), tags_of(*targets)),
{
    let mut cs: Vec<ContainerFormat> = Vec::new();
    let mut i: usize = 0;
    while i < containers.len()
        invariant
            i <= containers.len(),
            cs@.len() == i,
            all_containers_supported(containers@.subrange(0, i as int)),
            forall|j: int| 0 <= j < i ==> container_tag(#[trigger] cs@[j]) == containers@[j]@,
        decreases containers.len() - i,
    {
        match parse_container(&containers[i]) {
            Some(f) => cs.push(f),
            None => return Err(ConfigError::UnsupportedContainer(i)),
        }
        i = i + 1;
        assert(all_containers_supported(containers@.subrange(0, i as int))) by {
            assert forall|j: int| 0 <= j < i implies container_supported(#[trigger] containers@.subrange(0, i as int)[j]@) by {
                if j < i - 1 {
                    assert(containers@.subrange(0, i - 1)[j] == containers@.subrange(0, i as int)[j]);
                }
            }
        }
    }
    assert(containers@.subrange(0, containers.len() as int) =~= containers@);
    let mut hs: Vec<HashAlgorithm> = Vec::new();
    if let Some(v) = hashes {
        let mut i: usize = 0;
        while i < v.len()
            invariant
                i <= v.len(),
                hs@.len() == i,
                tags_of(*hashes) == v@,
                all_containers_supported(containers@),
                all_hashes_supported(v@.subrange(0, i as int)),
                forall|j: int| 0 <= j < i ==> hash_tag(#[trigger] hs@[j]) == v@[j]@,
            decreases v.len() - i,
        {
            match parse_hash(&v[i]) {
                Some(h) => hs.push(h),
                None => return Err(ConfigError::UnsupportedHash(i)),
            }
            i = i + 1;
            assert(all_hashes_supported(v@.subrange(0, i as int))) by {
                assert forall|j: int| 0 <= j < i implies hash_supported(#[trigger] v@.subrange(0, i as int)[j]@) by {
                    if j < i - 1 {
                        assert(v@.subrange(0, i - 1)[j] == v@.subrange(0, i as int)[j]);
                    }
                }
            }
        }
        assert(v@.subrange(0, v.len() as int) =~= v@);
    }
    let mut ts: Vec<DeployTarget> = Vec::new();
    if let Some(v) = targets {
        let mut i: usize = 0;
        while i < v.len()
            invariant
                i <= v.len(),
                ts@.len() == i,
                tags_of(*targets) == v@,
                all_containers_supported(containers@),
                all_hashes_supported(tags_of(*hashes)),
                all_targets_supported(v@.subrange(0, i as int)),
                forall|j: int| 0 <= j < i ==> deploy_tag(#[trigger] ts@[j]) == v@[j]@,
            decreases v.len() - i,
        {
            match parse_deploy_target(&v[i]) {
                Some(t) => ts.push(t),
                None => return Err(ConfigError::UnsupportedDeployTarget(i)),
            }
            i = i + 1;
            assert(all_targets_supported(v@.subrange(0, i as int))) by {
                assert forall|j: int| 0 <= j < i implies deploy_supported(#[trigger] v@.subrange(0, i as int)[j]@) by {
                    if j < i - 1 {
                        assert(v@.subrange(0, i - 1)[j] == v@.subrange(0, i as int)[j]);
                    }
                }
            }
        }
        assert(v@.subrange(0, v.len() as int) =~= v@);
    }
    Ok(Plan { containers: cs, hashes: hs, targets: ts })
}

} // verus!
