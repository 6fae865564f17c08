//! Plugin package discovery data and the GitHub URL parsing used when a
//! package is fetched: configuration records as the scanner reads them, and
//! the owner/name extraction from a repository URL.

use vstd::prelude::*;
use crate::strutil::views_of;

verus! {

/// The plugin section of a package's configuration file.
#[derive(Debug)]
pub struct PluginInfo {
    pub id: String,
    pub disabled: bool,
    pub name: String,
    pub version: String,
    pub description: String,
    pub author: String,
    pub avatar: Option<String>,
    pub homepage: Option<String>,
    pub repository: Option<String>,
    pub license: Option<String>,
    pub keywords: Vec<String>,
    pub min_client_version: Option<String>,
    pub max_client_version: Option<String>,
    pub platform: Vec<String>,
    pub dependencies: Vec<String>,
    pub library: String,
}

/// Download endpoints by platform.
#[derive(Debug)]
pub struct DownloadConfig {
    pub windows: Option<PlatformDownload>,
    pub macos: Option<PlatformDownload>,
    pub linux: Option<PlatformDownload>,
}

/// One platform's download endpoint.
#[derive(Debug)]
pub struct PlatformDownload {
    pub checksum: String,
    pub download_url: String,
}

impl Clone for PlatformDownload {
    fn clone(&self) -> (res: Self)
        ensures
            res == *self,
    {
        PlatformDownload {
            checksum: self.checksum.clone(),
            download_url: self.download_url.clone(),
        }
    }
}

/// A package's parsed configuration.
#[derive(Debug)]
pub struct PluginConfig {
    pub plugin: PluginInfo,
    pub download: Option<DownloadConfig>,
}

/// What the repository scanner reports for one available package.
#[derive(Debug)]
pub struct AvailablePluginInfo {
    pub id: String,
    pub name: String,
    pub version: String,
    pub description: String,
    pub author: String,
    pub avatar: Option<String>,
    pub homepage: Option<String>,
    pub repository: Option<String>,
    pub license: Option<String>,
    pub keywords: Vec<String>,
    pub min_client_version: Option<String>,
    pub max_client_version: Option<String>,
    pub platform: Vec<String>,
    pub dependencies: Vec<String>,
    pub download: Option<DownloadConfig>,
}

/// The outcome of installing one package.
#[derive(Debug)]
pub struct PluginDownloadResult {
    pub success: bool,
    pub message: String,
    pub plugin_id: Option<String>,
    pub installed_path: Option<String>,
}

/// The outcome of fetching a repository archive.
#[derive(Debug)]
pub struct DownloadResponse {
    pub success: bool,
    pub message: String,
    pub download_path: Option<String>,
}

/// The package scanner. Walking directories and reading files belong to
/// the host application; the records above are what it hands over.
#[derive(Debug)]
pub struct PluginLoader;

impl PluginLoader {
    /// A scanner.
    pub fn new() -> PluginLoader {
        PluginLoader
    }
}

/// The plugin repository client. Network transfer belongs to the host
/// application.
#[derive(Debug)]
pub struct PluginRepository;

impl PluginRepository {
    /// A repository client.
    pub fn new() -> PluginRepository {
        PluginRepository
    }

    /// The download endpoint for the named platform, if the package offers
    /// one. Platforms are named windows, macos and linux.
    pub fn get_platform_download_info(
        &self,
        download_config: &Option<DownloadConfig>,
        platform: &str,
    ) -> (r: Option<PlatformDownload>)
        ensures
            r == (match download_config {
                Some(c) => {
                    if platform@ == "windows"@ {
                        c.windows
                    } else if platform@ == "macos"@ {
                        c.macos
                    } else if platform@ == "linux"@ {
                        c.linux
                    } else {
                        None::<PlatformDownload>
                    }
                },
                None => None::<PlatformDownload>,
            }),
    {
        proof {
            reveal_strlit("windows");
            reveal_strlit("macos");
            reveal_strlit("linux");
            assert("windows"@.len() == 7);
            assert("macos"@.len() == 5);
            assert("linux"@.len() == 5);
        }
        let config = match download_config {
            Some(c) => c,
            None => {
                return None;
            },
        };
        if crate::strutil::str_eq(platform, "windows") {
            clone_opt_download(&config.windows)
        } else if crate::strutil::str_eq(platform, "macos") {
            clone_opt_download(&config.macos)
        } else if crate::strutil::str_eq(platform, "linux") {
            clone_opt_download(&config.linux)
        } else {
            None
        }
    }
}

/// An Option<PlatformDownload> copied value for value.
fn clone_opt_download(o: &Option<PlatformDownload>) -> (r: Option<PlatformDownload>)
    ensures
        r == *o,
{
    match o {
        Some(d) => Some(d.clone()),
        None => None,
    }
}

/// The scanner's report for a package, assembled from its parsed
/// configuration.
pub fn available_info_from_config(config: PluginConfig) -> (r: AvailablePluginInfo)
    ensures
        r.id == config.plugin.id,
        r.name == config.plugin.name,
        r.version == config.plugin.version,
        r.description == config.plugin.description,
        r.author == config.plugin.author,
        r.avatar == config.plugin.avatar,
        r.homepage == config.plugin.homepage,
        r.repository == config.plugin.repository,
        r.license == config.plugin.license,
        r.keywords == config.plugin.keywords,
        r.min_client_version == config.plugin.min_client_version,
        r.max_client_version == config.plugin.max_client_version,
        r.platform == config.plugin.platform,
        r.dependencies == config.plugin.dependencies,
        r.download == config.download,
{
    let PluginConfig { plugin, download } = config;
    AvailablePluginInfo {
        id: plugin.id,
        name: plugin.name,
        version: plugin.version,
        description: plugin.description,
        author: plugin.author,
        avatar: plugin.avatar,
        homepage: plugin.homepage,
        repository: plugin.repository,
        license: plugin.license,
        keywords: plugin.keywords,
        min_client_version: plugin.min_client_version,
        max_client_version: plugin.max_client_version,
        platform: plugin.platform,
        dependencies: plugin.dependencies,
        download,
    }
}

/// The registry metadata for a scanned package: its configuration joined
/// with where its files were found. The instance id stays unassigned until
/// the package is mounted.
pub fn metadata_from_config(
    plugin: PluginInfo,
    config_path: String,
    library_path: Option<String>,
) -> (r: crate::metadata::PluginMetadata)
    ensures
        r.id == plugin.id,
        r.disabled == plugin.disabled,
        r.name == plugin.name,
        r.description == plugin.description,
        r.version == plugin.version,
        r.author == Some(plugin.author),
        r.library_path == library_path,
        r.config_path == config_path,
        r.instance_id is None,
        !r.require_history,
{
    crate::metadata::PluginMetadata {
        id: plugin.id,
        disabled: plugin.disabled,
        name: plugin.name,
        description: plugin.description,
        version: plugin.version,
        author: Some(plugin.author),
        library_path,
        config_path,
        instance_id: None,
        require_history: false,
    }
}

/// A repository's owner and name, as extracted from its URL.
#[derive(Debug)]
pub struct RepoInfo {
    pub owner: String,
    pub name: String,
}

/// The position of the first slash, or -1 if there is none.
pub open spec fn first_slash(s: Seq<char>) -> int
    decreases s.len(),
{
    if s.len() == 0 {
        -1
    } else if s[0] == '/' {
        0
    } else {
        let r = first_slash(s.drop_first());
        if r < 0 {
            -1
        } else {
            r + 1
        }
    }
}

/// What first_slash returns: the position of a slash preceded by none, or
/// -1 when no slash occurs.
pub proof fn lemma_first_slash(s: Seq<char>)
    ensures
        -1 <= first_slash(s) < s.len(),
        first_slash(s) >= 0 ==> s[first_slash(s)] == '/',
        first_slash(s) >= 0 ==> forall|j: int| 0 <= j < first_slash(s) ==> s[j] != '/',
        first_slash(s) == -1 ==> forall|j: int| 0 <= j < s.len() ==> s[j] != '/',
    decreases s.len(),
{
    if s.len() > 0 && s[0] != '/' {
        let d = s.drop_first();
        lemma_first_slash(d);
        let r = first_slash(s);
        if r >= 0 {
            assert forall|j: int| 0 <= j < r implies s[j] != '/' by {
                if j >= 1 {
                    assert(d[j - 1] == s[j]);
                    assert(d[j - 1] != '/');
                }
            }
            assert(d[r - 1] == s[r]);
        } else {
            assert forall|j: int| 0 <= j < s.len() implies s[j] != '/' by {
                if j >= 1 {
                    assert(d[j - 1] == s[j]);
                    assert(d[j - 1] != '/');
                }
            }
        }
    }
}

/// s split at every slash; the separators are dropped and empty segments
/// are kept.
pub open spec fn split_slashes(s: Seq<char>) -> Seq<Seq<char>>
    decreases s.len(),
{
    let i = first_slash(s);
    if i < 0 || i >= s.len() {
        seq![s]
    } else {
        seq![s.subrange(0, i)] + split_slashes(s.subrange(i + 1, s.len() as int))
    }
}

/// Appending one character extends the last segment, or opens a fresh
/// empty segment when the character is a slash.
proof fn lemma_split_push(s: Seq<char>, c: char)
    ensures
        c != '/' ==> split_slashes(s.push(c)) == split_slashes(s).update(
            split_slashes(s).len() - 1,
            split_slashes(s).last().push(c),
        ),
        c == '/' ==> split_slashes(s.push(c)) == split_slashes(s).push(Seq::<char>::empty()),
        split_slashes(s).len() >= 1,
    decreases s.len(),
{
    lemma_first_slash(s);
    let i = first_slash(s);
    let t = s.push(c);
    if i < 0 {
        if c == '/' {
            lemma_first_slash(t);
            assert(t[s.len() as int] == '/');
            let it = first_slash(t);
            if it < s.len() as int {
                assert(s[it] == t[it]);
            }
            assert(it == s.len() as int);
            assert(t.subrange(0, it) =~= s);
            assert(t.subrange(it + 1, t.len() as int) =~= Seq::<char>::empty());
            assert(split_slashes(t.subrange(it + 1, t.len() as int)) =~= seq![
                Seq::<char>::empty(),
            ]);
            assert(split_slashes(t) =~= split_slashes(s).push(Seq::<char>::empty()));
        } else {
            lemma_first_slash(t);
            let it = first_slash(t);
            if it >= 0 {
                if it < s.len() as int {
                    assert(s[it] == t[it]);
                }
                assert(t[it] == '/');
                assert(false);
            }
            assert(split_slashes(t) == seq![t]);
            assert(split_slashes(t) =~= split_slashes(s).update(0, s.push(c)));
        }
    } else {
        lemma_first_slash(t);
        let it = first_slash(t);
        assert(t[i] == '/');
        assert forall|j: int| 0 <= j < i implies t[j] != '/' by {
            assert(t[j] == s[j]);
        }
        lemma_first_slash_at(t, i);
        assert(it == i);
        let rest = s.subrange(i + 1, s.len() as int);
        let trest = t.subrange(i + 1, t.len() as int);
        assert(trest =~= rest.push(c));
        lemma_split_push(rest, c);
        assert(t.subrange(0, i) =~= s.subrange(0, i));
        if c == '/' {
            assert(split_slashes(t) =~= split_slashes(s).push(Seq::<char>::empty()));
        } else {
            assert(split_slashes(t) =~= split_slashes(s).update(
                split_slashes(s).len() - 1,
                split_slashes(s).last().push(c),
            ));
        }
    }
}

/// first_slash finds exactly the slash position preceded by no other.
proof fn lemma_first_slash_at(s: Seq<char>, i: int)
    requires
        0 <= i < s.len(),
        s[i] == '/',
        forall|j: int| 0 <= j < i ==> s[j] != '/',
    ensures
        first_slash(s) == i,
{
    lemma_first_slash(s);
    let r = first_slash(s);
    if r == -1 {
        assert(s[i] != '/');
    } else if r < i {
        assert(s[r] != '/');
    } else if r > i {
        assert(s[i] != '/');
    }
}

/// s split at every slash, as executable code.
pub fn split_slashes_exec(s: &str) -> (r: Vec<String>)
    ensures
        views_of(r@) == split_slashes(s@),
        r@.len() >= 1,
{
    let n = s.unicode_len();
    let mut parts: Vec<String> = Vec::new();
    let mut cur: Vec<char> = Vec::new();
    let mut i: usize = 0;
    proof {
        assert(s@.subrange(0, 0) =~= Seq::<char>::empty());
        assert(split_slashes(Seq::<char>::empty()) == seq![Seq::<char>::empty()]);
        assert(views_of(parts@).push(cur@) =~= split_slashes(s@.subrange(0, 0)));
    }
    while i < n
        invariant
            n == s@.len(),
            i <= n,
            views_of(parts@).push(cur@) == split_slashes(s@.subrange(0, i as int)),
        decreases n - i,
    {
        let ghost pre = s@.subrange(0, i as int);
        let ghost pre1 = s@.subrange(0, i + 1 as int);
        proof {
            assert(pre1 =~= pre.push(s@[i as int]));
            lemma_split_push(pre, s@[i as int]);
        }
        let c = s.get_char(i);
        if c == '/' {
            let seg = crate::sys::chars_to_string(&cur);
            parts.push(seg);
            cur = Vec::new();
            proof {
                assert(views_of(parts@).push(cur@) =~= split_slashes(pre1));
            }
        } else {
            cur.push(c);
            proof {
                assert(views_of(parts@).push(cur@) =~= split_slashes(pre1));
            }
        }
        i += 1;
    }
    let last = crate::sys::chars_to_string(&cur);
    parts.push(last);
    proof {
        assert(s@.subrange(0, n as int) =~= s@);
        assert(views_of(parts@) =~= split_slashes(s@));
    }
    parts
}

/// s with every trailing slash removed.
pub open spec fn trim_slashes(s: Seq<char>) -> Seq<char>
    decreases s.len(),
{
    if s.len() > 0 && s.last() == '/' {
        trim_slashes(s.drop_last())
    } else {
        s
    }
}

/// s with every trailing ".git" removed.
pub open spec fn trim_git(s: Seq<char>) -> Seq<char>
    decreases s.len(),
{
    if s.len() >= 4 && s.subrange(s.len() - 4, s.len() as int) == ".git"@ {
        trim_git(s.subrange(0, s.len() - 4))
    } else {
        s
    }
}

/// The owner and name of a GitHub repository URL: after trailing slashes
/// and a trailing ".git" are dropped, the third slash-separated part must
/// read github.com and the fourth and fifth parts, both nonempty, are the
/// owner and the name.
pub open spec fn spec_repo_info(url: Seq<char>) -> Option<(Seq<char>, Seq<char>)> {
    let parts = split_slashes(trim_git(trim_slashes(url)));
    if parts.len() >= 5 && parts[2] == "github.com"@ && parts[3].len() > 0 && parts[4].len()
        > 0 {
        Some((parts[3], parts[4]))
    } else {
        None
    }
}

/// Extract the owner and name from a GitHub repository URL.
pub fn extract_repo_info(url: &str) -> (r: Result<RepoInfo, String>)
    ensures
        match r {
            Ok(info) => spec_repo_info(url@) == Some((info.owner@, info.name@)),
            Err(_) => spec_repo_info(url@) is None,
        },
{
    proof {
        reveal_strlit(".git");
        reveal_strlit("github.com");
        assert(".git"@.len() == 4);
        assert("github.com"@.len() == 10);
    }
    let n = url.unicode_len();
    let mut e: usize = n;
    proof {
        assert(url@.subrange(0, n as int) =~= url@);
    }
    while e > 0 && url.get_char(e - 1) == '/'
        invariant
            n == url@.len(),
            e <= n,
            trim_slashes(url@) == trim_slashes(url@.subrange(0, e as int)),
        decreases e,
    {
        proof {
            assert(url@.subrange(0, e as int).drop_last() =~= url@.subrange(0, e - 1 as int));
        }
        e = e - 1;
    }
    proof {
        assert(trim_slashes(url@.subrange(0, e as int)) == url@.subrange(0, e as int));
    }
    let ghost after_slash = trim_slashes(url@);
    while e >= 4 && url.get_char(e - 4) == '.' && url.get_char(e - 3) == 'g' && url.get_char(
        e - 2,
    ) == 'i' && url.get_char(e - 1) == 't'
        invariant
            n == url@.len(),
            e <= n,
            trim_git(after_slash) == trim_git(url@.subrange(0, e as int)),
            after_slash == trim_slashes(url@),
        decreases e,
    {
        proof {
            reveal_strlit(".git");
            let cur = url@.subrange(0, e as int);
            assert(cur.subrange(cur.len() - 4, cur.len() as int) =~= ".git"@);
            assert(cur.subrange(0, cur.len() - 4) =~= url@.subrange(0, e - 4 as int));
        }
        e = e - 4;
    }
    proof {
        let cur = url@.subrange(0, e as int);
        if cur.len() >= 4 && cur.subrange(cur.len() - 4, cur.len() as int) == ".git"@ {
            assert(cur.subrange(cur.len() - 4, cur.len() as int)[0] == url@[e - 4]);
            assert(cur.subrange(cur.len() - 4, cur.len() as int)[1] == url@[e - 3]);
            assert(cur.subrange(cur.len() - 4, cur.len() as int)[2] == url@[e - 2]);
            assert(cur.subrange(cur.len() - 4, cur.len() as int)[3] == url@[e - 1]);
            assert((".git"@)[0] == '.' && (".git"@)[1] == 'g' && (".git"@)[2] == 'i' && (
            ".git"@)[3] == 't');
        }
        assert(trim_git(cur) == cur);
    }
    let clean = url.substring_char(0, e);
    proof {
        assert(clean@ == trim_git(trim_slashes(url@)));
    }
    let parts = split_slashes_exec(clean);
    if parts.len() < 5 {
        return Err("the URL does not look like a GitHub repository".to_owned());
    }
    if !crate::strutil::str_eq(parts[2].as_str(), "github.com") {
        return Err("the URL does not name github.com".to_owned());
    }
    let owner = parts[3].clone();
    let name = parts[4].clone();
    if owner.as_str().unicode_len() == 0 || name.as_str().unicode_len() == 0 {
        return Err("the URL names no owner or repository".to_owned());
    }
    proof {
        assert(views_of(parts@)[2] == parts@[2]@);
        assert(views_of(parts@)[3] == parts@[3]@);
        assert(views_of(parts@)[4] == parts@[4]@);
    }
    Ok(RepoInfo { owner, name })
}

} // verus!
