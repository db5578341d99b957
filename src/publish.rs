use vstd::prelude::*;

use crate::index::{archive_heading, archive_upsert, homepage_upsert, upsert_archive, upsert_homepage};
use crate::post::{
    archive_entry, archive_entry_of, find_latest, home_entry, home_entry_of, is_latest,
    is_post_name, post_title, title_of,
};
use crate::text::views;

verus! {

/// Why a publish run stopped before it was done.
#[derive(Clone, Copy, Debug, PartialEq, Eq, Structural)]
pub enum PublishError {
    /// Mirroring the tree down or up failed.
    SyncFailed,
    /// The year's directory could be neither listed nor created.
    DirectoryUnavailable,
    /// The latest post could not be read.
    PostUnreadable,
    /// The latest post's first line lacks the `# ` title prefix.
    MalformedPost,
    /// An index document exists but could not be read.
    IndexUnreadable,
    /// An index document could not be written.
    WriteFailed,
    /// An event came that the current stage does not wait for.
    OutOfOrder,
}

/// Where a publish run stands: each stage waits for the outcome of the
/// action that led to it.
#[derive(Clone, Copy, Debug, PartialEq, Eq, Structural)]
pub enum Stage {
    Start,
    SyncingDown,
    Listing,
    CreatingDir,
    ReadingPost,
    ReadingArchive,
    WritingArchive,
    ReadingHomepage,
    WritingHomepage,
    SyncingUp,
    Finished,
}

/// What happened to the last action.
pub enum Event {
    /// Starts the run.
    Begin,
    /// The action succeeded and returned nothing.
    Succeeded,
    /// The action failed.
    Failed,
    /// The names of the files in the year's directory.
    Listed(Vec<String>),
    /// The contents of the file that was asked for; none where it is absent.
    /// A file that exists but cannot be read is `Failed`.
    Loaded(Option<String>),
}

/// What the caller is to do next.
pub enum Action {
    /// Mirror the remote tree down, never overwriting newer local files.
    SyncDown,
    /// List the names of the files in the year's directory.
    ListYearDir,
    /// Create the year's directory.
    CreateYearDir,
    /// Read the named post from the year's directory.
    ReadPost(String),
    /// Read the year's archive.
    ReadArchive,
    /// Write the year's archive with these contents.
    WriteArchive(String),
    /// Read the homepage.
    ReadHomepage,
    /// Write the homepage with these contents.
    WriteHomepage(String),
    /// Mirror the local tree up, without deleting.
    SyncUp,
    /// The run is done.
    Published,
    /// The run stopped.
    Abort(PublishError),
}

/// The view of an optional loaded document.
pub open spec fn loaded_view(doc: Option<String>) -> Option<Seq<char>> {
    match doc {
        Some(d) => Some(d@),
        None => None,
    }
}

/// Whether the run is at a stage that follows the choice of a post.
pub open spec fn has_post(stage: Stage) -> bool {
    stage == Stage::ReadingPost || stage == Stage::ReadingArchive || stage == Stage::WritingArchive
        || stage == Stage::ReadingHomepage || stage == Stage::WritingHomepage
}

/// Whether `stage` waits for an event of the kind of `event`.
pub open spec fn expected(stage: Stage, event: Event) -> bool {
    match stage {
        Stage::Start => event is Begin,
        Stage::SyncingDown | Stage::CreatingDir | Stage::WritingArchive | Stage::WritingHomepage
        | Stage::SyncingUp => event is Succeeded || event is Failed,
        Stage::Listing => event is Listed || event is Failed,
        Stage::ReadingPost => event is Loaded || event is Failed,
        Stage::ReadingArchive | Stage::ReadingHomepage => event is Loaded || event is Failed,
        Stage::Finished => false,
    }
}

/// One publish run: pull down, add the year's latest post to the archive and
/// the homepage, push up.
pub struct Publisher {
    pub stage: Stage,
    /// The current year, as written in directory names.
    pub year: String,
    /// The heading under which the homepage lists its latest posts.
    pub heading: String,
    /// Whether the year's directory has been created in this run.
    pub retried: bool,
    /// The file name of the latest post.
    pub post: String,
    /// The post's line in the archive.
    pub archive_line: String,
    /// The post's line on the homepage.
    pub home_line: String,
}

impl Publisher {
    /// The post name is valid from the stage that reads the post on.
    pub open spec fn wf(&self) -> bool {
        has_post(self.stage) ==> is_post_name(self.post@)
    }

    /// A run for `year` that has not started yet.
    pub fn new(year: &str, heading: &str) -> (r: Publisher)
        ensures
            r.wf(),
            r.stage == Stage::Start,
            r.year@ == year@,
            r.heading@ == heading@,
            !r.retried,
    {
        Publisher {
            stage: Stage::Start,
            year: String::from_str(year),
            heading: String::from_str(heading),
            retried: false,
            post: String::new(),
            archive_line: String::new(),
            home_line: String::new(),
        }
    }

    fn stop(&mut self, e: PublishError) -> (a: Action)
        ensures
            final(self).stage == Stage::Finished,
            final(self).year == old(self).year,
            final(self).heading == old(self).heading,
            final(self).retried == old(self).retried,
            final(self).post == old(self).post,
            final(self).archive_line == old(self).archive_line,
            final(self).home_line == old(self).home_line,
            a == Action::Abort(e),
    {
        self.stage = Stage::Finished;
        Action::Abort(e)
    }

    /// Takes the outcome of the last action and says what to do next.
    pub fn step(&mut self, event: Event) -> (a: Action)
        requires
            old(self).wf(),
        ensures
            final(self).wf(),
            final(self).year == old(self).year,
            final(self).heading == old(self).heading,
            old(self).stage == Stage::Start && event is Begin ==> final(self).stage
                == Stage::SyncingDown && a == Action::SyncDown,
            old(self).stage == Stage::SyncingDown && event is Succeeded ==> final(self).stage
                == Stage::Listing && !final(self).retried && a == Action::ListYearDir,
            old(self).stage == Stage::SyncingDown && event is Failed ==> final(self).stage
                == Stage::Finished && a == Action::Abort(PublishError::SyncFailed),
            old(self).stage == Stage::Listing ==> (event matches Event::Listed(names) ==> {
                if forall|j: int| 0 <= j < names@.len() ==> !is_post_name(#[trigger] names@[j]@) {
                    final(self).stage == Stage::SyncingUp && a == Action::SyncUp
                } else {
                    &&& final(self).stage == Stage::ReadingPost
                    &&& a matches Action::ReadPost(p)
                    &&& p@ == final(self).post@
                    &&& exists|i: int| is_latest(views(names@), i) && names@[i]@ == p@
                }
            }),
            old(self).stage == Stage::Listing && event is Failed && !old(self).retried
                ==> final(self).stage == Stage::CreatingDir && a == Action::CreateYearDir,
            old(self).stage == Stage::Listing && event is Failed && old(self).retried
                ==> final(self).stage == Stage::Finished && a == Action::Abort(
                PublishError::DirectoryUnavailable,
            ),
            old(self).stage == Stage::CreatingDir && event is Succeeded ==> final(self).stage
                == Stage::Listing && final(self).retried && a == Action::ListYearDir,
            old(self).stage == Stage::CreatingDir && event is Failed ==> final(self).stage
                == Stage::Finished && a == Action::Abort(PublishError::DirectoryUnavailable),
            old(self).stage == Stage::ReadingPost ==> (event matches Event::Loaded(Some(text)) ==> {
                match title_of(text@) {
                    None => final(self).stage == Stage::Finished && a == Action::Abort(
                        PublishError::MalformedPost,
                    ),
                    Some(t) => {
                        &&& final(self).stage == Stage::ReadingArchive
                        &&& a == Action::ReadArchive
                        &&& final(self).post == old(self).post
                        &&& final(self).archive_line@ == archive_entry_of(old(self).post@, t)
                        &&& final(self).home_line@ == home_entry_of(
                            old(self).year@,
                            old(self).post@,
                            t,
                        )
                    },
                }
            }),
            old(self).stage == Stage::ReadingPost && (event is Failed || event == Event::Loaded(None)) ==> final(self).stage == Stage::Finished && a == Action::Abort(
                PublishError::PostUnreadable,
            ),
            old(self).stage == Stage::ReadingArchive ==> (event matches Event::Loaded(doc) ==> {
                let new_doc = archive_upsert(
                    loaded_view(doc),
                    archive_heading(old(self).year@),
                    old(self).post@,
                    old(self).archive_line@,
                );
                &&& final(self).post == old(self).post
                &&& final(self).home_line == old(self).home_line
                &&& if loaded_view(doc) == Some(new_doc) {
                    final(self).stage == Stage::ReadingHomepage && a == Action::ReadHomepage
                } else {
                    &&& final(self).stage == Stage::WritingArchive
                    &&& a matches Action::WriteArchive(t)
                    &&& t@ == new_doc
                }
            }),
            old(self).stage == Stage::WritingArchive && event is Succeeded ==> final(self).stage
                == Stage::ReadingHomepage && a == Action::ReadHomepage && final(self).home_line
                == old(self).home_line,
            old(self).stage == Stage::ReadingHomepage ==> (event matches Event::Loaded(doc) ==> {
                let new_doc = homepage_upsert(
                    loaded_view(doc),
                    old(self).heading@,
                    old(self).home_line@,
                );
                if loaded_view(doc) == Some(new_doc) {
                    final(self).stage == Stage::SyncingUp && a == Action::SyncUp
                } else {
                    &&& final(self).stage == Stage::WritingHomepage
                    &&& a matches Action::WriteHomepage(t)
                    &&& t@ == new_doc
                }
            }),
            (old(self).stage == Stage::ReadingArchive || old(self).stage == Stage::ReadingHomepage)
                && event is Failed ==> final(self).stage == Stage::Finished && a == Action::Abort(
                PublishError::IndexUnreadable,
            ),
            (old(self).stage == Stage::WritingArchive || old(self).stage == Stage::WritingHomepage)
                && event is Failed ==> final(self).stage == Stage::Finished && a == Action::Abort(
                PublishError::WriteFailed,
            ),
            old(self).stage == Stage::WritingHomepage && event is Succeeded ==> final(self).stage
                == Stage::SyncingUp && a == Action::SyncUp,
            old(self).stage == Stage::SyncingUp && event is Succeeded ==> final(self).stage
                == Stage::Finished && a == Action::Published,
            old(self).stage == Stage::SyncingUp && event is Failed ==> final(self).stage
                == Stage::Finished && a == Action::Abort(PublishError::SyncFailed),
            !expected(old(self).stage, event) ==> final(self).stage == Stage::Finished && a
                == Action::Abort(PublishError::OutOfOrder),
    {
        match (self.stage, event) {
            (Stage::Start, Event::Begin) => {
                self.stage = Stage::SyncingDown;
                Action::SyncDown
            },
            (Stage::SyncingDown, Event::Succeeded) => {
                self.stage = Stage::Listing;
                self.retried = false;
                Action::ListYearDir
            },
            (Stage::SyncingDown, Event::Failed) => self.stop(PublishError::SyncFailed),
            (Stage::Listing, Event::Listed(names)) => {
                match find_latest(&names) {
                    None => {
                        self.stage = Stage::SyncingUp;
                        Action::SyncUp
                    },
                    Some(i) => {
                        proof {
                            assert(views(names@)[i as int] == names@[i as int]@);
                        }
                        self.post = names[i].clone();
                        self.stage = Stage::ReadingPost;
                        Action::ReadPost(names[i].clone())
                    },
                }
            },
            (Stage::Listing, Event::Failed) => {
                if self.retried {
                    self.stop(PublishError::DirectoryUnavailable)
                } else {
                    self.stage = Stage::CreatingDir;
                    Action::CreateYearDir
                }
            },
            (Stage::CreatingDir, Event::Succeeded) => {
                self.stage = Stage::Listing;
                self.retried = true;
                Action::ListYearDir
            },
            (Stage::CreatingDir, Event::Failed) => self.stop(PublishError::DirectoryUnavailable),
            (Stage::ReadingPost, Event::Loaded(Some(text))) => {
                match post_title(text.as_str()) {
                    None => self.stop(PublishError::MalformedPost),
                    Some(t) => {
                        self.archive_line = archive_entry(self.post.as_str(), t.as_str());
                        self.home_line = home_entry(self.year.as_str(), self.post.as_str(), t.as_str());
                        self.stage = Stage::ReadingArchive;
                        Action::ReadArchive
                    },
                }
            },
            (Stage::ReadingPost, Event::Loaded(None)) => self.stop(PublishError::PostUnreadable),
            (Stage::ReadingPost, Event::Failed) => self.stop(PublishError::PostUnreadable),
            (Stage::ReadingArchive, Event::Loaded(doc)) => {
                let mut heading = String::from_str("# ");
                heading.append(self.year.as_str());
                proof {
                    reveal_strlit("# ");
                    assert(heading@ =~= archive_heading(self.year@));
                }
                match doc {
                    None => {
                        let new_doc = upsert_archive(
                            None,
                            heading.as_str(),
                            self.post.as_str(),
                            self.archive_line.as_str(),
                        );
                        self.stage = Stage::WritingArchive;
                        Action::WriteArchive(new_doc)
                    },
                    Some(d) => {
                        let new_doc = upsert_archive(
                            Some(d.as_str()),
                            heading.as_str(),
                            self.post.as_str(),
                            self.archive_line.as_str(),
                        );
                        if new_doc == d {
                            self.stage = Stage::ReadingHomepage;
                            Action::ReadHomepage
                        } else {
                            self.stage = Stage::WritingArchive;
                            Action::WriteArchive(new_doc)
                        }
                    },
                }
            },
            (Stage::WritingArchive, Event::Succeeded) => {
                self.stage = Stage::ReadingHomepage;
                Action::ReadHomepage
            },
            (Stage::ReadingHomepage, Event::Loaded(doc)) => {
                match doc {
                    None => {
                        let new_doc = upsert_homepage(
                            None,
                            self.heading.as_str(),
                            self.home_line.as_str(),
                        );
                        self.stage = Stage::WritingHomepage;
                        Action::WriteHomepage(new_doc)
                    },
                    Some(d) => {
                        let new_doc = upsert_homepage(
                            Some(d.as_str()),
                            self.heading.as_str(),
                            self.home_line.as_str(),
                        );
                        if new_doc == d {
                            self.stage = Stage::SyncingUp;
                            Action::SyncUp
                        } else {
                            self.stage = Stage::WritingHomepage;
                            Action::WriteHomepage(new_doc)
                        }
                    },
                }
            },
            (Stage::ReadingArchive, Event::Failed) => self.stop(PublishError::IndexUnreadable),
            (Stage::ReadingHomepage, Event::Failed) => self.stop(PublishError::IndexUnreadable),
            (Stage::WritingArchive, Event::Failed) => self.stop(PublishError::WriteFailed),
            (Stage::WritingHomepage, Event::Failed) => self.stop(PublishError::WriteFailed),
            (Stage::WritingHomepage, Event::Succeeded) => {
                self.stage = Stage::SyncingUp;
                Action::SyncUp
            },
            (Stage::SyncingUp, Event::Succeeded) => {
                self.stage = Stage::Finished;
                Action::Published
            },
            (Stage::SyncingUp, Event::Failed) => self.stop(PublishError::SyncFailed),
            _ => self.stop(PublishError::OutOfOrder),
        }
    }
}

} // verus!
