use vstd::prelude::*;
use crate::archive::{read_archive, zip_entries, zip_readable};
use crate::catalog::{catalog_link, find_link, query_url, release_query_url, Json, Resolution};
use crate::extract::{
    entry_views, extraction_plan, first_unsafe, plan_extraction, stays_inside_all, ExtractError, FsAction,
};
use crate::install::{
    is_relocation_plan, is_runtime_root, locate_runtime_root, plan_relocation, relative_to, InstallAction,
    RelocationError, TreeEntry, WalkEntry,
};
use crate::paths::{parent_of, parent_path};
use crate::search_path::{contains_sub, register_entry, registered};

verus! {

/// Finds and fetches the JDK archive.
pub struct Downloader {
    pub java_version: String,
    pub download_path: String,
    pub java_url: String,
}

/// Unpacks the fetched archive.
pub struct Extractor {
    pub download_path: String,
    pub extract_path: String,
}

/// Moves the runtime found in the unpacked tree to the install directory.
pub struct Installer {
    pub extract_path: String,
    pub install_path: String,
}

/// Puts the runtime's binary directory on the executable search path.
pub struct EnvironmentVariableConfigurator {
    pub install_path: String,
}

/// The whole install: fetch, unpack, install, register.
pub struct JavaSetup {
    pub downloader: Downloader,
    pub extractor: Extractor,
    pub installer: Installer,
    pub env_configurator: EnvironmentVariableConfigurator,
}

/// The steps of an install run, in order, and the two ends.
#[derive(Debug, Clone, Copy, PartialEq, Eq)]
pub enum Stage {
    EnsureDownloadDir,
    Fetch,
    Extract,
    LocateAndInstall,
    RegisterPath,
    Cleanup,
    Done,
    Failed,
}

/// How a step ended: done, done with something skipped that the run reports
/// (no link, no runtime root, registration only partly confirmed), or failed.
#[derive(Debug, Clone, Copy, PartialEq, Eq)]
pub enum Outcome {
    Succeeded,
    Skipped,
    Fatal,
}

/// The step after `s` on a run that goes on.
pub open spec fn successor(s: Stage) -> Stage {
    match s {
        Stage::EnsureDownloadDir => Stage::Fetch,
        Stage::Fetch => Stage::Extract,
        Stage::Extract => Stage::LocateAndInstall,
        Stage::LocateAndInstall => Stage::RegisterPath,
        Stage::RegisterPath => Stage::Cleanup,
        Stage::Cleanup => Stage::Done,
        Stage::Done => Stage::Done,
        Stage::Failed => Stage::Failed,
    }
}

/// The stage a run is in after step `s` ended with `o`: a failure ends the
/// run at once, anything else moves on; the two ends stay where they are.
pub open spec fn after(s: Stage, o: Outcome) -> Stage {
    match s {
        Stage::Done => Stage::Done,
        Stage::Failed => Stage::Failed,
        _ => match o {
            Outcome::Fatal => Stage::Failed,
            _ => successor(s),
        },
    }
}

/// The stage a run has reached after the step outcomes `os`.
pub open spec fn run_stage(os: Seq<Outcome>) -> Stage
    decreases os.len(),
{
    if os.len() == 0 {
        Stage::EnsureDownloadDir
    } else {
        after(run_stage(os.drop_last()), os.last())
    }
}

/// The directory that `download_path` lies in.
pub open spec fn download_dir_of(download_path: Seq<char>) -> Seq<char> {
    parent_of(download_path)
}

/// The binary directory of an install, on a machine whose path separator
/// is `sep`.
pub open spec fn bin_dir_of(install: Seq<char>, sep: Seq<char>) -> Seq<char> {
    install + sep + "bin"@
}

/// The stage that follows `stage` when it ended with `outcome`.
pub fn next_stage(stage: Stage, outcome: Outcome) -> (r: Stage)
    ensures
        r == after(stage, outcome),
{
    match stage {
        Stage::Done => Stage::Done,
        Stage::Failed => Stage::Failed,
        _ => match outcome {
            Outcome::Fatal => Stage::Failed,
            _ => match stage {
                Stage::EnsureDownloadDir => Stage::Fetch,
                Stage::Fetch => Stage::Extract,
                Stage::Extract => Stage::LocateAndInstall,
                Stage::LocateAndInstall => Stage::RegisterPath,
                Stage::RegisterPath => Stage::Cleanup,
                _ => Stage::Done,
            },
        },
    }
}

/// A run that reaches the cleanup step met no failure on the way.
pub proof fn lemma_cleanup_only_after_success(os: Seq<Outcome>)
    requires
        run_stage(os) == Stage::Cleanup,
    ensures
        forall|i: int| 0 <= i < os.len() ==> !(#[trigger] os[i] is Fatal),
{
    lemma_still_running_means_no_failure(os);
}

/// A run that has reached neither end met no failure.
proof fn lemma_still_running_means_no_failure(os: Seq<Outcome>)
    requires
        run_stage(os) != Stage::Failed,
        run_stage(os) != Stage::Done,
    ensures
        forall|i: int| 0 <= i < os.len() ==> !(#[trigger] os[i] is Fatal),
    decreases os.len(),
{
    if os.len() > 0 {
        let prev = os.drop_last();
        lemma_still_running_means_no_failure(prev);
        assert forall|i: int| 0 <= i < os.len() implies !(#[trigger] os[i] is Fatal) by {
            if i < os.len() - 1 {
                assert(os[i] == prev[i]);
            }
        }
    }
}

/// Once a run has failed, no later outcome moves it: in particular it never
/// reaches the cleanup step, so what it left on disk stays.
pub proof fn lemma_failure_is_final(os: Seq<Outcome>, more: Seq<Outcome>)
    requires
        run_stage(os) == Stage::Failed,
    ensures
        run_stage(os + more) == Stage::Failed,
    decreases more.len(),
{
    if more.len() > 0 {
        lemma_failure_is_final(os, more.drop_last());
        assert((os + more).drop_last() =~= os + more.drop_last());
    }
}

impl Downloader {
    /// Reads the download link out of the catalog's response.
    pub fn download(&self, catalog: &Json) -> (r: Resolution)
        ensures
            r matches Resolution::Found(s) ==> catalog_link(*catalog) == Some(s@),
            r is NotFound ==> catalog_link(*catalog) is None,
    {
        find_link(catalog)
    }
}

impl Extractor {
    /// Reads the zip archive held in `archive` and plans unpacking its
    /// entries into the extraction directory. Entry paths are as zip makes
    /// them with this machine's path separator.
    pub fn extract(&self, archive: Vec<u8>) -> (r: Result<Vec<FsAction>, ExtractError>)
        ensures
            r matches Err(ExtractError::UnreadableArchive) <==> !zip_readable(archive@),
            zip_readable(archive@) && (forall|sep: char| stays_inside_all(#[trigger] zip_entries(archive@, sep)))
                ==> r is Ok,
            r matches Ok(acts) ==> exists|sep: char|
                (sep == '/' || sep == '\\') && stays_inside_all(#[trigger] zip_entries(archive@, sep))
                    && extraction_plan(acts@, self.extract_path@, zip_entries(archive@, sep)),
            r matches Err(e) ==> (e is UnreadableArchive || exists|sep: char|
                (sep == '/' || sep == '\\') && #[trigger] first_unsafe(e, zip_entries(archive@, sep))),
    {
        let (entries, sep) = read_archive(archive)?;
        let r = plan_extraction(self.extract_path.as_str(), &entries);
        assert(entry_views(entries@) == zip_entries(archive@, sep));
        r
    }
}

impl Installer {
    /// Finds the runtime root in a walk of the extraction directory.
    pub fn locate(&self, walk: &Vec<WalkEntry>) -> (r: Option<usize>)
        ensures
            r matches Some(i) ==> {
                &&& i < walk@.len()
                &&& is_runtime_root(walk@[i as int])
                &&& forall|j: int| 0 <= j < i ==> !is_runtime_root(#[trigger] walk@[j])
            },
            r is None ==> forall|j: int| 0 <= j < walk@.len() ==> !is_runtime_root(#[trigger] walk@[j]),
    {
        locate_runtime_root(walk)
    }

    /// Plans replacing the install directory with the runtime root `root`,
    /// walked as `tree`.
    pub fn install(&self, root: &str, install_exists: bool, tree: &Vec<TreeEntry>) -> (r: Result<
        Vec<InstallAction>,
        RelocationError,
    >)
        ensures
            r is Ok <==> forall|i: int| 0 <= i < tree@.len() ==> (relative_to(#[trigger] tree@[i].path@, root@) is Some),
            r matches Ok(acts) ==> is_relocation_plan(acts@, root@, self.install_path@, install_exists, tree@),
    {
        let install = self.install_path.as_str();
        assert(install@ == self.install_path@);
        plan_relocation(root, install, install_exists, tree)
    }
}

impl EnvironmentVariableConfigurator {
    /// The runtime's binary directory, with `sep` the machine's path
    /// separator.
    pub fn bin_dir(&self, sep: &str) -> (r: String)
        ensures
            r@ == bin_dir_of(self.install_path@, sep@),
    {
        let r = String::from_str(self.install_path.as_str()).concat(sep).concat("bin");
        proof {
            reveal_strlit("bin");
        }
        r
    }

    /// The new value of the search path `current`, or `None` when it already
    /// holds the binary directory; `sep` is the machine's path separator.
    pub fn configure(&self, current: &str, sep: &str) -> (r: Option<String>)
        ensures
            r is None <==> contains_sub(current@, bin_dir_of(self.install_path@, sep@)),
            r matches Some(p) ==> p@ == registered(current@, bin_dir_of(self.install_path@, sep@)),
    {
        let bin = self.bin_dir(sep);
        register_entry(current, bin.as_str())
    }
}

impl JavaSetup {
    /// Sets up an install of `java_version`, fetching to `download_path`,
    /// unpacking into `extract_path` and installing into `install_path`.
    pub fn new(java_version: &str, download_path: &str, extract_path: &str, install_path: &str) -> (r:
        Self)
        ensures
            r.downloader.java_version@ == java_version@,
            r.downloader.download_path@ == download_path@,
            r.downloader.java_url@ == query_url(java_version@),
            r.extractor.download_path@ == download_path@,
            r.extractor.extract_path@ == extract_path@,
            r.installer.extract_path@ == extract_path@,
            r.installer.install_path@ == install_path@,
            r.env_configurator.install_path@ == install_path@,
    {
        let java_url = release_query_url(java_version);
        JavaSetup {
            downloader: Downloader {
                java_version: String::from_str(java_version),
                download_path: String::from_str(download_path),
                java_url,
            },
            extractor: Extractor {
                download_path: String::from_str(download_path),
                extract_path: String::from_str(extract_path),
            },
            installer: Installer {
                extract_path: String::from_str(extract_path),
                install_path: String::from_str(install_path),
            },
            env_configurator: EnvironmentVariableConfigurator {
                install_path: String::from_str(install_path),
            },
        }
    }

    /// The directory the archive is fetched into, removed after a successful run.
    pub fn download_dir(&self) -> (r: String)
        ensures
            r@ == download_dir_of(self.downloader.download_path@),
    {
        parent_path(self.downloader.download_path.as_str())
    }
}

} // verus!
