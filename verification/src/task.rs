//! The work on one source file, as a machine that performs no I/O: it is
//! told what happened and answers with what has to be done next.

use crate::chance::{Chance, DELETE_PERCENT, SPLICE_PERCENT, TRUNCATE_PERCENT};
use crate::cli::Cli;
use crate::content::{
    lemma_finishing_never_shrinks, lemma_plain_copy_never_grows, lemma_shrinks_to_bounds, Content,
    ContentView,
};
use crate::naming::{
    extension_of, lemma_variant_keeps_extension, lemma_variant_names_differ,
    read_file_name_extension, split_name, variant_name, variant_path,
};
use crate::random::draw_u64;
use crate::splice::{choose_files, donors_of};
use rand::rngs::StdRng;
use vstd::prelude::*;

verus! {

/// What the driver has to do next.
#[derive(Debug)]
pub enum Request {
    /// Read the source file; as text where the flag is set, else as bytes.
    Load(bool),
    /// Tell whether something exists at this path.
    Probe(String),
    /// Read these files; one that cannot be read gives no bytes.
    Fetch(Vec<String>),
    /// Write the content to the path.
    Store(String, Content),
    /// Nothing is left to do for this file.
    Finish,
}

/// What the driver reports back.
#[derive(Debug)]
pub enum Reply {
    /// Nothing yet: the first call.
    Start,
    /// The source file's content, or `None` where it could not be read.
    Loaded(Option<Content>),
    /// Whether something exists at the probed path.
    Probed(bool),
    /// What the donors gave, in the order in which they were asked for.
    Fetched(Vec<Vec<u8>>),
    /// The write was tried; a failure changes nothing for the task.
    Stored,
}

/// Where the work on a source file stands.
pub enum Phase {
    /// Nothing was asked for yet.
    Created,
    /// The source file is being read.
    Loading,
    /// The path of the current copy is being probed.
    Naming(String),
    /// The donors of the current copy are being read; its path is settled
    /// and its content shrunk.
    Splicing(String, Content),
    /// The current copy is being written.
    Storing,
    /// The file is done with.
    Done,
}

/// What stays the same while a source file is worked on.
struct Job {
    full_name: String,
    stem: String,
    extension: String,
    output_path: String,
    copies: u32,
    character_mode: bool,
    connect_multiple_files: bool,
    special_words: Vec<String>,
}

impl Job {
    /// Stem and extension are those of the source file's path.
    spec fn named(self) -> bool {
        split_name(self.full_name@) == Some((self.stem@, self.extension@))
    }

    /// `path` is a path for copy number `copy`, with some random suffix of
    /// 64 bits.
    spec fn offers(self, copy: nat, path: Seq<char>) -> bool {
        exists|suffix: nat|
            suffix <= u64::MAX && path == #[trigger] variant_name(
                self.output_path@,
                self.stem@,
                copy,
                suffix,
                self.extension@,
            )
    }

    /// `content` is in the mode that the settings ask for.
    spec fn agrees(self, content: Content) -> bool {
        (content@ is Text) == self.character_mode
    }
}

/// The work on one source file. The task owns the generator that it draws
/// from.
pub struct FileTask {
    job: Job,
    source: Option<Content>,
    copy: u32,
    phase: Phase,
    rng: StdRng,
}

impl FileTask {
    /// The path of the source file.
    pub closed spec fn full_name(self) -> Seq<char> {
        self.job.full_name@
    }

    /// The stem of the source file's name.
    pub closed spec fn stem(self) -> Seq<char> {
        self.job.stem@
    }

    /// The extension of the source file's name.
    pub closed spec fn extension(self) -> Seq<char> {
        self.job.extension@
    }

    /// The folder that receives the copies.
    pub closed spec fn output_path(self) -> Seq<char> {
        self.job.output_path@
    }

    /// How many copies are asked for.
    pub closed spec fn copies(self) -> nat {
        self.job.copies as nat
    }

    /// Whether content is handled as characters.
    pub closed spec fn character_mode(self) -> bool {
        self.job.character_mode
    }

    /// Whether splicing is asked for.
    pub closed spec fn connect_multiple_files(self) -> bool {
        self.job.connect_multiple_files
    }

    /// The words to insert.
    pub closed spec fn special_words(self) -> Seq<Seq<char>> {
        self.job.special_words.deep_view()
    }

    /// The source file's content, once it is read.
    pub closed spec fn source(self) -> Option<ContentView> {
        match self.source {
            Some(content) => Some(content@),
            None => None,
        }
    }

    /// The index of the current copy: so many copies are done with.
    pub closed spec fn copy(self) -> nat {
        self.copy as nat
    }

    /// Where the work stands.
    pub closed spec fn phase(self) -> Phase {
        self.phase
    }

    /// `path` is a path for the current copy, with some random suffix of 64
    /// bits.
    pub open spec fn is_candidate(self, path: Seq<char>) -> bool {
        exists|suffix: nat|
            suffix <= u64::MAX && path == #[trigger] variant_name(
                self.output_path(),
                self.stem(),
                self.copy(),
                suffix,
                self.extension(),
            )
    }

    /// Splicing is asked for and there is more than one file to take from.
    pub open spec fn splices(self, files: Seq<Seq<char>>) -> bool {
        self.connect_multiple_files() && files.len() > 1
    }

    /// What every task holds to, whatever happened to it.
    #[verifier::type_invariant]
    pub closed spec fn well_formed(self) -> bool {
        &&& self.job.named()
        &&& self.copy <= self.job.copies
        &&& self.source matches Some(content) ==> self.job.agrees(content)
        &&& match self.phase {
            Phase::Created => self.source is None && self.copy == 0,
            Phase::Loading => self.source is None && self.copy == 0,
            Phase::Naming(candidate) => {
                &&& self.source is Some
                &&& self.copy < self.job.copies
                &&& self.job.offers(self.copy as nat, candidate@)
            },
            Phase::Splicing(path, shrunk) => {
                &&& self.source is Some
                &&& self.copy < self.job.copies
                &&& self.job.connect_multiple_files
                &&& self.job.offers(self.copy as nat, path@)
                &&& self.source.unwrap()@.shrinks_to(shrunk@)
            },
            Phase::Storing => self.source is Some && self.copy < self.job.copies,
            Phase::Done => true,
        }
    }

    /// What the task keeps as the path of its current copy is a candidate.
    proof fn lemma_offer_is_candidate(self, path: Seq<char>)
        requires
            self.job.offers(self.copy as nat, path),
        ensures
            self.is_candidate(path),
    {
        let suffix = choose|suffix: nat|
            suffix <= u64::MAX && path == #[trigger] variant_name(
                self.job.output_path@,
                self.job.stem@,
                self.copy as nat,
                suffix,
                self.job.extension@,
            );
        assert(path == variant_name(
            self.output_path(),
            self.stem(),
            self.copy(),
            suffix,
            self.extension(),
        ));
    }

    /// A task never counts more copies than were asked for, and while it
    /// names, splices or stores a copy, the source is read and that copy is
    /// still owed. The source is in the mode that the settings ask for; a
    /// task waits for donors only where splicing is asked for, and what
    /// waits with it is what shrinking made of the source.
    pub proof fn lemma_copy_is_owed(self)
        requires
            self.well_formed(),
        ensures
            self.copy() <= self.copies(),
            self.phase() is Naming || self.phase() is Splicing || self.phase() is Storing ==> {
                &&& self.copy() < self.copies()
                &&& self.source() is Some
            },
            self.phase() is Created || self.phase() is Loading ==> {
                &&& self.copy() == 0
                &&& self.source() is None
            },
            self.source() matches Some(content) ==> (content is Text) == self.character_mode(),
            self.phase() is Splicing ==> self.connect_multiple_files(),
            self.phase() matches Phase::Splicing(_, shrunk) ==> self.source().unwrap().shrinks_to(
                shrunk@,
            ),
    {
    }

    /// The two tasks work on the same file under the same settings.
    pub open spec fn same_job(self, other: FileTask) -> bool {
        &&& self.full_name() == other.full_name()
        &&& self.stem() == other.stem()
        &&& self.extension() == other.extension()
        &&& self.output_path() == other.output_path()
        &&& self.copies() == other.copies()
        &&& self.character_mode() == other.character_mode()
        &&& self.connect_multiple_files() == other.connect_multiple_files()
        &&& self.special_words() == other.special_words()
    }

    /// The task is over and says so.
    pub open spec fn ends(self, request: Request) -> bool {
        self.phase() is Done && request is Finish
    }

    /// The task asks whether a path for its current copy is taken.
    pub open spec fn names(self, request: Request) -> bool {
        &&& self.copy() < self.copies()
        &&& request matches Request::Probe(path)
        &&& self.is_candidate(path@)
        &&& self.phase() matches Phase::Naming(candidate)
        &&& candidate@ == path@
    }

    /// The task stands at copy number `copy`: it names that copy where
    /// copies are left to make, and is over where none is.
    pub open spec fn turns_to(self, copy: nat, request: Request) -> bool {
        &&& self.copy() == copy
        &&& if copy < self.copies() {
            self.names(request)
        } else {
            self.ends(request)
        }
    }

    /// The task asks for donors: it was in `before` with the free path
    /// `candidate`, splicing is on, and the shrunk content waits.
    pub open spec fn asks_donors(
        self,
        before: FileTask,
        candidate: Seq<char>,
        files: Seq<Seq<char>>,
        request: Request,
    ) -> bool {
        &&& before.splices(files)
        &&& self.copy() == before.copy()
        &&& request matches Request::Fetch(donors)
        &&& donors_of(files, donors.deep_view())
        &&& self.phase() matches Phase::Splicing(path, shrunk)
        &&& path@ == candidate
        &&& before.source().unwrap().shrinks_to(shrunk@)
    }

    /// The task hands out a copy with nothing spliced in, to be written to
    /// the free path `candidate`.
    pub open spec fn stores_plain(
        self,
        before: FileTask,
        candidate: Seq<char>,
        request: Request,
    ) -> bool {
        &&& self.copy() == before.copy()
        &&& self.phase() is Storing
        &&& request matches Request::Store(path, content)
        &&& path@ == candidate
        &&& exists|shrunk: ContentView|
            before.source().unwrap().shrinks_to(shrunk) && #[trigger] shrunk.finishes_as(
                before.special_words(),
                content@,
            )
    }

    /// The task hands out a copy with `donated` spliced in behind `shrunk`,
    /// to be written to `path`.
    pub open spec fn stores_spliced(
        self,
        before: FileTask,
        path: Seq<char>,
        shrunk: ContentView,
        donated: Seq<u8>,
        request: Request,
    ) -> bool {
        &&& self.copy() == before.copy()
        &&& self.phase() is Storing
        &&& request matches Request::Store(target, content)
        &&& target@ == path
        &&& shrunk.with_donation(donated).finishes_as(before.special_words(), content@)
    }
}

/// What a step of the task may lead to: from `before`, on `reply` and with
/// the source files `files`, to `after` and `request`.
pub open spec fn follows(
    before: FileTask,
    reply: Reply,
    files: Seq<Seq<char>>,
    after: FileTask,
    request: Request,
) -> bool {
    &&& after.same_job(before)
    &&& match before.phase() {
        Phase::Created => {
            &&& after.phase() is Loading
            &&& after.source() is None
            &&& after.copy() == 0
            &&& request matches Request::Load(as_text)
            &&& as_text == before.character_mode()
        },
        Phase::Loading => match reply {
            Reply::Loaded(Some(content)) => if (content@ is Text) == before.character_mode() {
                &&& after.source() == Some(content@)
                &&& after.turns_to(0, request)
            } else {
                after.ends(request)
            },
            _ => after.ends(request),
        },
        Phase::Naming(candidate) => {
            &&& after.source() == before.source()
            &&& match reply {
                Reply::Probed(true) => after.turns_to(before.copy(), request),
                Reply::Probed(false) => {
                    &&& before.source().unwrap().len() == 0 ==> after.turns_to(
                        before.copy() + 1,
                        request,
                    )
                    &&& {
                        ||| after.turns_to(before.copy() + 1, request)
                        ||| after.asks_donors(before, candidate@, files, request)
                        ||| after.stores_plain(before, candidate@, request)
                    }
                },
                _ => after.ends(request),
            }
        },
        Phase::Splicing(path, shrunk) => {
            &&& after.source() == before.source()
            &&& match reply {
                Reply::Fetched(parts) => after.stores_spliced(
                    before,
                    path@,
                    shrunk@,
                    parts.deep_view().flatten(),
                    request,
                ),
                _ => after.ends(request),
            }
        },
        Phase::Storing => {
            &&& after.source() == before.source()
            &&& after.turns_to(before.copy() + 1, request)
        },
        Phase::Done => after.ends(request),
    }
}

impl FileTask {
    /// The task for the source file at `full_name`, drawing from `rng`, or
    /// `None` where that file has no extension: such a file is passed over.
    pub fn new(full_name: &str, settings: &Cli, rng: StdRng) -> (task: Option<FileTask>)
        ensures
            task is Some <==> split_name(full_name@) is Some,
            task matches Some(fresh) ==> {
                &&& fresh.full_name() == full_name@
                &&& split_name(full_name@) == Some((fresh.stem(), fresh.extension()))
                &&& fresh.output_path() == settings.output_path@
                &&& fresh.copies() == settings.number_of_broken_files
                &&& fresh.character_mode() == settings.character_mode
                &&& fresh.connect_multiple_files() == settings.connect_multiple_files
                &&& fresh.special_words() == settings.special_words.deep_view()
                &&& fresh.source() is None
                &&& fresh.copy() == 0
                &&& fresh.phase() is Created
            },
    {
        match read_file_name_extension(full_name) {
            None => None,
            Some((stem, extension)) => {
                let special_words: Vec<String> = settings.special_words.clone();
                let job = Job {
                    full_name: full_name.to_owned(),
                    stem,
                    extension,
                    output_path: settings.output_path.clone(),
                    copies: settings.number_of_broken_files,
                    character_mode: settings.character_mode,
                    connect_multiple_files: settings.connect_multiple_files,
                    special_words,
                };
                Some(FileTask { job, source: None, copy: 0, phase: Phase::Created, rng })
            },
        }
    }

    /// Gives the file up, or is done with it.
    fn finish(job: Job, source: Option<Content>, copy: u32, rng: StdRng) -> (next: (
        FileTask,
        Request,
    ))
        requires
            job.named(),
            copy <= job.copies,
            source matches Some(content) ==> job.agrees(content),
        ensures
            next.0.job == job,
            next.0.source == source,
            next.0.copy == copy,
            next.0.ends(next.1),
    {
        (FileTask { job, source, copy, phase: Phase::Done, rng }, Request::Finish)
    }

    /// Turns to copy number `copy`: draws a path for it and asks whether
    /// the path is taken, or is done where all copies are made.
    fn turn_to(job: Job, source: Content, copy: u32, rng: StdRng) -> (next: (FileTask, Request))
        requires
            job.named(),
            job.agrees(source),
            copy <= job.copies,
        ensures
            next.0.job == job,
            next.0.source == Some(source),
            next.0.turns_to(copy as nat, next.1),
    {
        let mut rng = rng;
        if copy < job.copies {
            let suffix: u64 = draw_u64(&mut rng);
            let path: String = variant_path(
                job.output_path.as_str(),
                job.stem.as_str(),
                copy,
                suffix,
                job.extension.as_str(),
            );
            let candidate: String = path.clone();
            let task = FileTask {
                job,
                source: Some(source),
                copy,
                phase: Phase::Naming(candidate),
                rng,
            };
            proof {
                task.lemma_offer_is_candidate(path@);
            }
            (task, Request::Probe(path))
        } else {
            FileTask::finish(job, Some(source), copy, rng)
        }
    }

    /// What follows the shrinking of a copy whose path `candidate` is free:
    /// given what shrinking made of the source and which donors were
    /// chosen, settles what is asked for next. A copy that was given up
    /// turns the task to the next one; with donors the shrunk content waits
    /// for what they give; without donors the copy is finished and handed
    /// out to be written.
    fn after_shrinking(
        job: Job,
        source: Content,
        copy: u32,
        candidate: String,
        shrunk: Option<Content>,
        donors: Vec<String>,
        rng: StdRng,
    ) -> (next: (FileTask, Request))
        requires
            job.named(),
            job.agrees(source),
            copy < job.copies,
            job.offers(copy as nat, candidate@),
            shrunk matches Some(waiting) ==> source@.shrinks_to(waiting@),
            donors@.len() > 0 ==> job.connect_multiple_files,
        ensures
            next.0.job == job,
            next.0.source == Some(source),
            shrunk is None ==> next.0.turns_to(copy as nat + 1, next.1),
            shrunk matches Some(waiting) ==> (donors@.len() > 0 ==> {
                &&& next.0.copy == copy
                &&& next.1 matches Request::Fetch(asked)
                &&& asked@ == donors@
                &&& next.0.phase() matches Phase::Splicing(path, kept)
                &&& path@ == candidate@
                &&& kept@ == waiting@
            }),
            shrunk matches Some(waiting) ==> (donors@.len() == 0 ==> {
                &&& next.0.copy == copy
                &&& next.0.phase() is Storing
                &&& next.1 matches Request::Store(path, content)
                &&& path@ == candidate@
                &&& waiting@.finishes_as(job.special_words.deep_view(), content@)
            }),
    {
        let mut rng = rng;
        match shrunk {
            None => FileTask::turn_to(job, source, copy + 1, rng),
            Some(waiting) => {
                proof {
                    lemma_shrinks_to_bounds(source@, waiting@);
                }
                if donors.len() > 0 {
                    let task = FileTask {
                        job,
                        source: Some(source),
                        copy,
                        phase: Phase::Splicing(candidate, waiting),
                        rng,
                    };
                    (task, Request::Fetch(donors))
                } else {
                    let content: Content = waiting.finished(
                        &mut rng,
                        job.special_words.as_slice(),
                    );
                    let task = FileTask {
                        job,
                        source: Some(source),
                        copy,
                        phase: Phase::Storing,
                        rng,
                    };
                    (task, Request::Store(candidate, content))
                }
            },
        }
    }

    /// A path kept for the current copy is a candidate and has the source
    /// file's extension.
    proof fn lemma_offer_keeps_extension(self, path: Seq<char>)
        requires
            self.job.named(),
            self.job.offers(self.copy as nat, path),
        ensures
            self.is_candidate(path),
            extension_of(path) == extension_of(self.full_name()),
    {
        self.lemma_offer_is_candidate(path);
        let suffix = choose|suffix: nat|
            suffix <= u64::MAX && path == #[trigger] variant_name(
                self.job.output_path@,
                self.job.stem@,
                self.copy as nat,
                suffix,
                self.job.extension@,
            );
        lemma_variant_keeps_extension(
            self.job.full_name@,
            self.job.output_path@,
            self.copy as nat,
            suffix,
        );
    }

    /// One step of the work: takes what the driver reports and says what it
    /// has to do next. A report that does not answer the last request ends
    /// the task.
    ///
    /// Loaded content of another mode than the one asked for is such a
    /// report. Donors are drawn from `files` as they are handed in: the
    /// source file itself is among them unless the driver leaves it out.
    pub fn advance(self, reply: Reply, files: &[String]) -> (next: (FileTask, Request))
        ensures
            follows(self, reply, files.deep_view(), next.0, next.1),
            self.copies() == 0 ==> next.1 is Load || next.1 is Finish,
            next.1 matches Request::Store(path, content) ==> {
                &&& self.is_candidate(path@)
                &&& extension_of(path@) == extension_of(self.full_name())
                &&& content@.len() > 0
                &&& (content@ is Text) == self.character_mode()
            },
    {
        proof {
            use_type_invariant(&self);
        }
        let ghost before = self;
        let FileTask { job, source, copy, phase, rng } = self;
        let mut rng = rng;
        match phase {
            Phase::Created => {
                let as_text: bool = job.character_mode;
                (FileTask { job, source, copy, phase: Phase::Loading, rng }, Request::Load(as_text))
            },
            Phase::Loading => match reply {
                Reply::Loaded(Some(content)) => {
                    if content.is_text() == job.character_mode {
                        FileTask::turn_to(job, content, 0, rng)
                    } else {
                        FileTask::finish(job, source, copy, rng)
                    }
                },
                _ => FileTask::finish(job, source, copy, rng),
            },
            Phase::Naming(candidate) => match reply {
                Reply::Probed(true) => FileTask::turn_to(job, source.unwrap(), copy, rng),
                Reply::Probed(false) => {
                    let source: Content = source.unwrap();
                    let shrunk: Option<Content> = source.shrunk(
                        &mut rng,
                        Chance::percent(TRUNCATE_PERCENT),
                        Chance::percent(DELETE_PERCENT),
                    );
                    let donors: Vec<String> = if shrunk.is_some() && job.connect_multiple_files
                        && files.len() > 1 {
                        choose_files(&mut rng, Chance::percent(SPLICE_PERCENT), files)
                    } else {
                        Vec::new()
                    };
                    let ghost made = shrunk;
                    let ghost chosen = donors@;
                    let ghost path = candidate@;
                    let ghost read = source@;
                    let next = FileTask::after_shrinking(
                        job,
                        source,
                        copy,
                        candidate,
                        shrunk,
                        donors,
                        rng,
                    );
                    proof {
                        before.lemma_offer_keeps_extension(path);
                        if made is Some {
                            let waiting = made->0;
                            lemma_shrinks_to_bounds(read, waiting@);
                            if chosen.len() == 0 {
                                let content = next.1->Store_1;
                                lemma_finishing_never_shrinks(
                                    waiting@,
                                    before.special_words(),
                                    content@,
                                );
                                assert(next.0.stores_plain(before, path, next.1));
                            } else {
                                assert(next.0.asks_donors(before, path, files.deep_view(), next.1));
                            }
                        }
                    }
                    next
                },
                _ => FileTask::finish(job, source, copy, rng),
            },
            Phase::Splicing(path, shrunk) => match reply {
                Reply::Fetched(parts) => {
                    let ghost waiting = shrunk@;
                    let spliced: Content = shrunk.spliced(&parts);
                    let ghost joined = spliced@;
                    proof {
                        lemma_shrinks_to_bounds(source.unwrap()@, waiting);
                    }
                    let content: Content = spliced.finished(
                        &mut rng,
                        job.special_words.as_slice(),
                    );
                    let task = FileTask { job, source, copy, phase: Phase::Storing, rng };
                    proof {
                        before.lemma_offer_keeps_extension(path@);
                        lemma_finishing_never_shrinks(joined, before.special_words(), content@);
                    }
                    (task, Request::Store(path, content))
                },
                _ => FileTask::finish(job, source, copy, rng),
            },
            Phase::Storing => FileTask::turn_to(job, source.unwrap(), copy + 1, rng),
            Phase::Done => FileTask::finish(job, source, copy, rng),
        }
    }
}

/// While a file is worked on, copies with different numbers never get the
/// same path, whatever their random suffixes are.
pub proof fn lemma_copies_get_different_paths(
    first: FileTask,
    second: FileTask,
    first_path: Seq<char>,
    second_path: Seq<char>,
)
    requires
        first.same_job(second),
        first.is_candidate(first_path),
        second.is_candidate(second_path),
        first.copy() != second.copy(),
    ensures
        first_path != second_path,
{
    let first_suffix = choose|suffix: nat|
        suffix <= u64::MAX && first_path == #[trigger] variant_name(
            first.output_path(),
            first.stem(),
            first.copy(),
            suffix,
            first.extension(),
        );
    let second_suffix = choose|suffix: nat|
        suffix <= u64::MAX && second_path == #[trigger] variant_name(
            second.output_path(),
            second.stem(),
            second.copy(),
            suffix,
            second.extension(),
        );
    if first_path == second_path {
        lemma_variant_names_differ(
            first.output_path(),
            first.stem(),
            first.extension(),
            first.copy(),
            first_suffix,
            second.copy(),
            second_suffix,
        );
    }
}

/// A copy that is handed out with nothing spliced in is never longer than
/// the source and never empty, where the source is made of bytes or there
/// are no words to insert.
pub proof fn lemma_plain_store_never_grows(
    before: FileTask,
    after: FileTask,
    candidate: Seq<char>,
    request: Request,
)
    requires
        before.source() is Some,
        after.stores_plain(before, candidate, request),
        before.source().unwrap() is Bytes || before.special_words().len() == 0,
    ensures
        request matches Request::Store(_, content) && 0 < content@.len()
            <= before.source().unwrap().len(),
{
    let content = request->Store_1;
    let shrunk = choose|shrunk: ContentView|
        before.source().unwrap().shrinks_to(shrunk) && #[trigger] shrunk.finishes_as(
            before.special_words(),
            content@,
        );
    lemma_plain_copy_never_grows(
        before.source().unwrap(),
        shrunk,
        before.special_words(),
        content@,
    );
}

/// With splicing off, every copy that a task hands out is no longer than
/// the source and not empty, where the source is made of bytes or there are
/// no words to insert: a source of one unit is copied as one unit or not at
/// all.
pub proof fn lemma_unspliced_store_never_grows(
    before: FileTask,
    reply: Reply,
    files: Seq<Seq<char>>,
    after: FileTask,
    request: Request,
)
    requires
        before.well_formed(),
        follows(before, reply, files, after, request),
        !before.connect_multiple_files(),
        !before.character_mode() || before.special_words().len() == 0,
        request is Store,
    ensures
        before.source() is Some,
        request matches Request::Store(_, content) && 0 < content@.len()
            <= before.source().unwrap().len(),
{
    before.lemma_copy_is_owed();
    match before.phase() {
        Phase::Naming(candidate) => {
            lemma_plain_store_never_grows(before, after, candidate@, request);
        },
        _ => {},
    }
}

} // verus!
