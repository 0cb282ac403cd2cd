//! The dispatcher: which files of a walk are eligible, and the jobs it emits for them.

use vstd::prelude::*;
use crate::algorithm::{Algorithm, Algorithms};
use crate::path::{extension, extension_of, file_name, sibling};
use crate::quality::Quality;
use crate::text::{same_text, texts};

verus! {

/// The least capacity of the job queue, whatever the number of workers.
pub const QUEUE_FLOOR: usize = 128;

/// One entry of a directory walk, as far as the dispatcher reads it.
#[derive(Debug)]
pub struct FileEntry {
    /// The path of the entry.
    pub path: String,
    /// Whether the entry is a regular file.
    pub is_file: bool,
    /// Whether the entry is a symbolic link.
    pub is_symlink: bool,
    /// The size of the file in bytes.
    pub size: u64,
}

/// One job: a codec and the path of the file to compress with it.
pub type Unit = (Algorithm, String);

/// The jobs of `units`, paths as sequences of characters.
pub open spec fn unit_views(units: Seq<Unit>) -> Seq<(Algorithm, Seq<char>)> {
    Seq::new(units.len(), |i: int| (units[i].0, units[i].1@))
}

/// The extensions compressed when the configuration names none.
pub open spec fn default_extensions() -> Seq<Seq<char>> {
    seq![
        "atom"@,
        "conf"@,
        "css"@,
        "eot"@,
        "htm"@,
        "html"@,
        "js"@,
        "json"@,
        "jsx"@,
        "md"@,
        "otf"@,
        "rss"@,
        "scss"@,
        "sitemap"@,
        "svg"@,
        "text"@,
        "ts"@,
        "tsx"@,
        "ttf"@,
        "txt"@,
        "wasm"@,
        "xml"@,
        "yaml"@,
    ]
}

/// Whether the extension `ext` is on the allow-list: the configured one, or
/// the default list where none is configured.
pub open spec fn allowed(ext: Seq<char>, extensions: Option<Seq<Seq<char>>>) -> bool {
    match extensions {
        Some(list) => list.contains(ext),
        None => default_extensions().contains(ext),
    }
}

/// Whether `path` has an extension that is on the allow-list.
pub open spec fn listed(path: Seq<char>, extensions: Option<Seq<Seq<char>>>) -> bool {
    extension(path) matches Some(ext) && allowed(ext, extensions)
}

/// The capacity of the job queue for a pool of `threads` workers.
pub open spec fn capacity_for(threads: int) -> int {
    if 2 * threads > QUEUE_FLOOR {
        2 * threads
    } else {
        QUEUE_FLOOR as int
    }
}

/// Returns the capacity of the job queue for a pool of `threads` workers:
/// twice the number of workers, and never less than the floor.
pub fn queue_capacity(threads: usize) -> (out: usize)
    requires
        2 * threads <= usize::MAX,
    ensures
        out == capacity_for(threads as int),
        out >= QUEUE_FLOOR,
        out >= 2 * threads,
{
    let twice = threads * 2;
    if twice > QUEUE_FLOOR {
        twice
    } else {
        QUEUE_FLOOR
    }
}

/// Returns the default extensions.
pub fn default_extension_list() -> (out: Vec<&'static str>)
    ensures
        out@.len() == default_extensions().len(),
        forall|i: int| 0 <= i < out@.len() ==> (#[trigger] out@[i])@ == default_extensions()[i],
{
    let mut out: Vec<&'static str> = Vec::new();
    out.push("atom");
    out.push("conf");
    out.push("css");
    out.push("eot");
    out.push("htm");
    out.push("html");
    out.push("js");
    out.push("json");
    out.push("jsx");
    out.push("md");
    out.push("otf");
    out.push("rss");
    out.push("scss");
    out.push("sitemap");
    out.push("svg");
    out.push("text");
    out.push("ts");
    out.push("tsx");
    out.push("ttf");
    out.push("txt");
    out.push("wasm");
    out.push("xml");
    out.push("yaml");
    out
}

/// Tells whether `ext` is one of the default extensions.
pub fn is_default_extension(ext: &str) -> (out: bool)
    ensures
        out == default_extensions().contains(ext@),
{
    let list = default_extension_list();
    let mut i: usize = 0;
    while i < list.len()
        invariant
            i <= list.len(),
            list@.len() == default_extensions().len(),
            forall|j: int| 0 <= j < list@.len() ==> (#[trigger] list@[j])@ == default_extensions()[j],
            forall|j: int| 0 <= j < i ==> default_extensions()[j] != ext@,
        decreases list.len() - i,
    {
        if same_text(list[i], ext) {
            return true;
        }
        i = i + 1;
    }
    false
}

/// Tells whether `ext` is one of the texts of `list`.
pub fn is_listed(ext: &str, list: &Vec<String>) -> (out: bool)
    ensures
        out == texts(list@).contains(ext@),
{
    let mut i: usize = 0;
    while i < list.len()
        invariant
            i <= list.len(),
            forall|j: int| 0 <= j < i ==> texts(list@)[j] != ext@,
        decreases list.len() - i,
    {
        if same_text(list[i].as_str(), ext) {
            assert(texts(list@)[i as int] == ext@);
            return true;
        }
        i = i + 1;
    }
    false
}

/// The configuration of a run and the dispatcher over it.
#[derive(Debug)]
pub struct Compressor {
    /// The number of workers of the pool.
    pub threads: usize,
    /// The least size of a file that is compressed, in bytes.
    pub min_size: u64,
    /// The quality of each codec.
    pub quality: Quality,
    /// The enabled codecs.
    pub algorithms: Algorithms,
    /// The extensions that are compressed, where the default list is not wanted.
    pub extensions: Option<Vec<String>>,
}

impl Compressor {
    /// The qualities are valid and the queue capacity fits a machine word.
    pub open spec fn wf(&self) -> bool {
        &&& self.quality.wf()
        &&& 2 * self.threads <= usize::MAX
    }

    /// The configured allow-list, as sequences of characters.
    pub open spec fn allow_list(&self) -> Option<Seq<Seq<char>>> {
        match self.extensions {
            Some(list) => Some(texts(list@)),
            None => None,
        }
    }

    /// Whether `entry` is eligible: a regular file that is no symbolic
    /// link, with an allow-listed extension and of the least size.
    pub open spec fn eligible(&self, entry: &FileEntry) -> bool {
        &&& listed(entry.path@, self.allow_list())
        &&& !entry.is_symlink
        &&& entry.is_file
        &&& entry.size >= self.min_size
    }

    /// The jobs emitted for `entry`: one per enabled codec in the fixed
    /// codec order if the entry is eligible, none if it is not.
    pub open spec fn jobs_for(&self, entry: &FileEntry) -> Seq<(Algorithm, Seq<char>)> {
        if self.eligible(entry) {
            Seq::new(
                self.algorithms.selected().len(),
                |i: int| (self.algorithms.selected()[i], entry.path@),
            )
        } else {
            Seq::empty()
        }
    }

    /// The jobs emitted for the entries of a walk, entry after entry.
    pub open spec fn jobs_of(&self, entries: Seq<FileEntry>) -> Seq<(Algorithm, Seq<char>)>
        decreases entries.len(),
    {
        if entries.len() == 0 {
            Seq::empty()
        } else {
            self.jobs_of(entries.drop_last()) + self.jobs_for(&entries.last())
        }
    }

    /// The number of eligible entries of a walk.
    pub open spec fn eligible_count(&self, entries: Seq<FileEntry>) -> nat
        decreases entries.len(),
    {
        if entries.len() == 0 {
            0
        } else {
            self.eligible_count(entries.drop_last()) + if self.eligible(&entries.last()) {
                1nat
            } else {
                0nat
            }
        }
    }

    /// Makes the configuration of a run.
    pub fn new(
        threads: usize,
        min_size: u64,
        quality: Quality,
        algorithms: Algorithms,
        extensions: Option<Vec<String>>,
    ) -> (out: Compressor)
        requires
            quality.wf(),
            2 * threads <= usize::MAX,
        ensures
            out.wf(),
            out.threads == threads,
            out.min_size == min_size,
            out.quality == quality,
            out.algorithms == algorithms,
            out.extensions == extensions,
    {
        Compressor { threads, min_size, quality, algorithms, extensions }
    }

    /// Returns the capacity of the job queue of this run.
    pub fn capacity(&self) -> (out: usize)
        requires
            self.wf(),
        ensures
            out == capacity_for(self.threads as int),
    {
        queue_capacity(self.threads)
    }

    /// Tells whether the extension of `path` is on the allow-list.
    pub fn should_compress(&self, path: &str) -> (out: bool)
        ensures
            out == listed(path@, self.allow_list()),
    {
        match extension_of(path) {
            None => false,
            Some(ext) => match &self.extensions {
                Some(list) => is_listed(ext.as_str(), list),
                None => is_default_extension(ext.as_str()),
            },
        }
    }

    /// Tells whether `entry` is eligible.
    pub fn is_eligible(&self, entry: &FileEntry) -> (out: bool)
        ensures
            out == self.eligible(entry),
    {
        self.should_compress(entry.path.as_str()) && !entry.is_symlink && entry.is_file
            && entry.size >= self.min_size
    }

    /// Returns the jobs for one entry of the walk: one per enabled codec if
    /// the entry is eligible, none if it is not.
    pub fn dispatch(&self, entry: &FileEntry) -> (out: Vec<Unit>)
        ensures
            unit_views(out@) == self.jobs_for(entry),
    {
        let mut out: Vec<Unit> = Vec::new();
        if self.is_eligible(entry) {
            let selected = self.algorithms.iter();
            let mut i: usize = 0;
            while i < selected.len()
                invariant
                    i <= selected.len(),
                    selected@ == self.algorithms.selected(),
                    out@.len() == i,
                    forall|j: int|
                        0 <= j < i ==> (#[trigger] out@[j]).0 == selected@[j] && out@[j].1@
                            == entry.path@,
                decreases selected.len() - i,
            {
                out.push((selected[i], entry.path.clone()));
                i = i + 1;
            }
        }
        out
    }

    /// Returns the jobs for the entries of a walk, entry after entry.
    pub fn precompress(&self, entries: &Vec<FileEntry>) -> (out: Vec<Unit>)
        ensures
            unit_views(out@) == self.jobs_of(entries@),
    {
        let mut out: Vec<Unit> = Vec::new();
        let mut i: usize = 0;
        while i < entries.len()
            invariant
                i <= entries.len(),
                unit_views(out@) == self.jobs_of(entries@.take(i as int)),
            decreases entries.len() - i,
        {
            let mut jobs = self.dispatch(&entries[i]);
            assert(entries@.take(i + 1).drop_last() =~= entries@.take(i as int));
            out.append(&mut jobs);
            i = i + 1;
        }
        assert(entries@.take(entries.len() as int) =~= entries@);
        out
    }

    /// No job is emitted for a file below the least size, for a path whose
    /// extension is not on the allow-list, for a symbolic link, or for
    /// anything that is no regular file.
    pub proof fn lemma_ineligible_emits_nothing(&self, entry: &FileEntry)
        ensures
            entry.size < self.min_size ==> self.jobs_for(entry).len() == 0,
            !listed(entry.path@, self.allow_list()) ==> self.jobs_for(entry).len() == 0,
            entry.is_symlink || !entry.is_file ==> self.jobs_for(entry).len() == 0,
    {
    }

    /// An eligible file gets exactly one job per enabled codec, each for
    /// the file's own path, and each job has a sibling path to write to.
    pub proof fn lemma_eligible_jobs(&self, entry: &FileEntry)
        requires
            self.eligible(entry),
        ensures
            self.jobs_for(entry).len() == self.algorithms.count(),
            forall|a: Algorithm|
                self.algorithms.enabled(a) <==> self.jobs_for(entry).contains((a, entry.path@)),
            forall|i: int|
                0 <= i < self.jobs_for(entry).len() ==> {
                    &&& (#[trigger] self.jobs_for(entry)[i]).1 == entry.path@
                    &&& self.algorithms.enabled(self.jobs_for(entry)[i].0)
                    &&& sibling(entry.path@, self.jobs_for(entry)[i].0) is Some
                },
    {
        let jobs = self.jobs_for(entry);
        let selected = self.algorithms.selected();
        self.algorithms.lemma_selected_members();
        assert forall|a: Algorithm| self.algorithms.enabled(a) implies jobs.contains(
            (a, entry.path@),
        ) by {
            let i = choose|i: int| 0 <= i < selected.len() && selected[i] == a;
            assert(jobs[i] == (a, entry.path@));
        }
    }

    /// The jobs of a walk number the eligible entries times the enabled codecs.
    pub proof fn lemma_job_count(&self, entries: Seq<FileEntry>)
        ensures
            self.jobs_of(entries).len() == self.eligible_count(entries) * self.algorithms.count(),
        decreases entries.len(),
    {
        let c = self.algorithms.count() as int;
        if entries.len() == 0 {
            assert(0 * c == 0) by (nonlinear_arith);
        } else {
            self.lemma_job_count(entries.drop_last());
            let n = self.eligible_count(entries.drop_last()) as int;
            assert((n + 1) * c == n * c + c) by (nonlinear_arith);
            assert((n + 0) * c == n * c) by (nonlinear_arith);
        }
    }
}

} // verus!
