//! One-time cleanup of what older builds left in the app's folder: extracted
//! driver files, and permissions that keep the app from its own logs.
//!
//! The cleanup decides, its caller acts: each step names one thing to do, and
//! what came of it leads to the next step. Nothing is touched through a name
//! that is not the plain directory it should be.

use crate::text;
use vstd::prelude::*;
use vstd::string::*;

verus! {

/// Files that a driver build extracted into the app's folder.
pub const EXTRACTED_FILES: [&'static str; 3] = [
    "WinDivert.dll",
    "WinDivert64.sys",
    "WinDivert-LICENSE.txt",
];

/// Directory that a late driver build extracted into instead.
pub const EXTRACTED_SUBDIR: &'static str = "runtime";

/// What came of opening a directory itself, links not followed.
#[derive(Debug, Clone, PartialEq, Eq)]
pub enum Opened {
    Plain,
    Missing,
    Refused(String),
}

/// What came of deleting something.
#[derive(Debug, Clone, PartialEq, Eq)]
pub enum Deleted {
    Gone,
    Missing,
    Failed(String),
}

/// The next thing to do.
#[derive(Debug, Clone, Copy, PartialEq, Eq, Structural)]
pub enum Step {
    OpenRoot,
    /// Ask whether the folder's permissions are cut off from its parent's.
    ReadPermissions,
    ResetPermissions,
    /// Delete the extracted file of this number.
    DeleteFile(usize),
    OpenSubdir,
    DeleteSubdir,
    Finished,
}

/// What the cleanup found and did, to be logged once there is a log.
#[derive(Debug, Clone, PartialEq, Eq)]
pub struct Leftovers {
    pub reset_dacl: bool,
    pub removed: Vec<String>,
    pub warnings: Vec<String>,
}

impl Default for Leftovers {
    fn default() -> (found: Self)
        ensures
            !found.reset_dacl,
            found.removed@.len() == 0,
            found.warnings@.len() == 0,
    {
        Leftovers { reset_dacl: false, removed: Vec::new(), warnings: Vec::new() }
    }
}

impl Leftovers {
    /// The warnings to log, and what to log of the cleanup itself: whether
    /// permissions were reset and what was removed, or nothing where neither
    /// happened.
    pub fn report(&self) -> (said: (&Vec<String>, Option<(bool, String)>))
        ensures
            said.0@ == self.warnings@,
            match said.1 {
                Some((reset, removed)) => (self.reset_dacl || self.removed@.len() > 0) && reset
                    == self.reset_dacl && removed@ == text::joined(
                    text::views(self.removed@),
                    ", "@,
                ),
                None => !self.reset_dacl && self.removed@.len() == 0,
            },
    {
        if self.reset_dacl || !self.removed.is_empty() {
            (&self.warnings, Some((self.reset_dacl, text::join(&self.removed, ", "))))
        } else {
            (&self.warnings, None)
        }
    }
}

/// A cleanup under way.
#[verifier::ext_equal]
pub struct Sweep {
    pub step: Step,
    /// The app's folder was opened as the plain directory it should be.
    pub root_is_plain: bool,
    pub reset_dacl: bool,
    pub removed: Seq<Seq<char>>,
    pub warnings: Seq<Seq<char>>,
}

impl Sweep {
    /// Nothing was tried yet.
    pub open spec fn begun() -> Self {
        Sweep {
            step: Step::OpenRoot,
            root_is_plain: false,
            reset_dacl: false,
            removed: Seq::empty(),
            warnings: Seq::empty(),
        }
    }

    /// With one more warning.
    pub open spec fn warned(self, warning: Seq<char>) -> Self {
        Sweep { warnings: self.warnings.push(warning), ..self }
    }

    /// At another step.
    pub open spec fn at(self, step: Step) -> Self {
        Sweep { step, ..self }
    }

    /// After the app's folder was opened, or not.
    pub open spec fn after_root(self, root: Seq<char>, opened: Opened) -> Self {
        match opened {
            Opened::Plain => Sweep { root_is_plain: true, ..self.at(Step::ReadPermissions) },
            Opened::Missing => self.at(Step::Finished),
            Opened::Refused(error) => self.warned(
                "refusing to clean up "@ + root + " ("@ + error@
                    + ") — nothing here is worth doing to a directory that is not the one it names"@,
            ).at(Step::Finished),
        }
    }

    /// After the folder's permissions were read.
    pub open spec fn after_read(self, root: Seq<char>, is_cut_off: Result<bool, String>) -> Self {
        match is_cut_off {
            Ok(true) => self.at(Step::ResetPermissions),
            Ok(false) => self.at(Step::DeleteFile(0)),
            Err(error) => self.warned(
                "could not read the permissions on "@ + root + " ("@ + error@
                    + ") — skipping the cleanup"@,
            ).at(Step::DeleteFile(0)),
        }
    }

    /// After the folder's permissions were reset.
    pub open spec fn after_reset(self, root: Seq<char>, reset: Result<(), String>) -> Self {
        match reset {
            Ok(_) => Sweep { reset_dacl: true, ..self.at(Step::DeleteFile(0)) },
            Err(error) => self.warned(
                "could not restore inherited permissions on "@ + root + " ("@ + error@
                    + ") — logs and crash.log may stay unwritable without administrator rights"@,
            ).at(Step::DeleteFile(0)),
        }
    }

    /// After an extracted file was deleted, or not.
    pub open spec fn after_file(self, path: Seq<char>, deleted: Deleted) -> Self
        recommends
            self.step is DeleteFile,
    {
        let number = self.step->0;
        let next = self.at(
            if number + 1 < 3 {
                Step::DeleteFile((number + 1) as usize)
            } else {
                Step::OpenSubdir
            },
        );
        match deleted {
            Deleted::Gone => Sweep {
                removed: self.removed.push(EXTRACTED_FILES@[number as int]@),
                ..next
            },
            Deleted::Missing => next,
            Deleted::Failed(error) => next.warned(
                "could not delete the stale runtime file "@ + path + " ("@ + error@ + ")"@,
            ),
        }
    }

    /// After the extracted directory was opened, or not.
    pub open spec fn after_subdir(self, path: Seq<char>, opened: Opened) -> Self {
        match opened {
            Opened::Plain => self.at(Step::DeleteSubdir),
            Opened::Missing => self.at(Step::Finished),
            Opened::Refused(error) => self.warned(
                "refusing to delete "@ + path + " ("@ + error@
                    + ") — it is not the plain directory a WinDivert build would have left"@,
            ).at(Step::Finished),
        }
    }

    /// After the extracted directory was deleted, or not.
    pub open spec fn after_delete(self, path: Seq<char>, deleted: Result<(), String>) -> Self {
        match deleted {
            Ok(_) => Sweep {
                removed: self.removed.push(EXTRACTED_SUBDIR@),
                ..self.at(Step::Finished)
            },
            Err(error) => self.warned(
                "could not delete the extracted runtime directory "@ + path + " ("@ + error@
                    + ")"@,
            ).at(Step::Finished),
        }
    }
}

/// The cleanup of one folder.
pub struct Cleanup {
    step: Step,
    root_is_plain: bool,
    found: Leftovers,
}

impl View for Cleanup {
    type V = Sweep;

    closed spec fn view(&self) -> Sweep {
        Sweep {
            step: self.step,
            root_is_plain: self.root_is_plain,
            reset_dacl: self.found.reset_dacl,
            removed: text::views(self.found.removed@),
            warnings: text::views(self.found.warnings@),
        }
    }
}

/// `first`, `name`, ` (`, `error` and `last`, one after another.
fn worded(first: &str, name: &str, error: &str, last: &str) -> (s: String)
    ensures
        s@ == first@ + name@ + " ("@ + error@ + last@,
{
    let mut s = first.to_owned();
    s.append(name);
    s.append(" (");
    s.append(error);
    s.append(last);
    s
}

impl Cleanup {
    /// The next thing to do.
    pub fn step(&self) -> (step: Step)
        ensures
            step == self@.step,
    {
        self.step
    }

    /// What was found and done.
    pub fn finish(self) -> (found: Leftovers)
        ensures
            found.reset_dacl == self@.reset_dacl,
            text::views(found.removed@) == self@.removed,
            text::views(found.warnings@) == self@.warnings,
    {
        self.found
    }

    fn warn(&mut self, warning: String)
        ensures
            final(self)@ == old(self)@.warned(warning@),
    {
        self.found.warnings.push(warning);
        assert(self@ =~= old(self)@.warned(warning@));
    }

    fn removed(&mut self, name: &str)
        ensures
            final(self)@ == (Sweep { removed: old(self)@.removed.push(name@), ..old(self)@ }),
    {
        self.found.removed.push(name.to_owned());
        assert(self@.removed =~= old(self)@.removed.push(name@));
    }

    /// The app's folder was opened, or not.
    pub fn root_opened(&mut self, root: &str, opened: Opened)
        ensures
            final(self)@ == old(self)@.after_root(root@, opened),
    {
        match opened {
            Opened::Plain => {
                self.root_is_plain = true;
                self.step = Step::ReadPermissions;
            },
            Opened::Missing => {
                self.step = Step::Finished;
            },
            Opened::Refused(error) => {
                let warning = worded(
                    "refusing to clean up ",
                    root,
                    error.as_str(),
                    ") — nothing here is worth doing to a directory that is not the one it names",
                );
                self.warn(warning);
                self.step = Step::Finished;
            },
        }
    }

    /// The folder's permissions were read, or not.
    pub fn permissions_read(&mut self, root: &str, is_cut_off: Result<bool, String>)
        ensures
            final(self)@ == old(self)@.after_read(root@, is_cut_off),
    {
        match is_cut_off {
            Ok(true) => {
                self.step = Step::ResetPermissions;
            },
            Ok(false) => {
                self.step = Step::DeleteFile(0);
            },
            Err(error) => {
                let warning = worded(
                    "could not read the permissions on ",
                    root,
                    error.as_str(),
                    ") — skipping the cleanup",
                );
                self.warn(warning);
                self.step = Step::DeleteFile(0);
            },
        }
    }

    /// The folder's permissions were reset, or not.
    pub fn permissions_reset(&mut self, root: &str, reset: Result<(), String>)
        ensures
            final(self)@ == old(self)@.after_reset(root@, reset),
    {
        match reset {
            Ok(_) => {
                self.found.reset_dacl = true;
                self.step = Step::DeleteFile(0);
            },
            Err(error) => {
                let warning = worded(
                    "could not restore inherited permissions on ",
                    root,
                    error.as_str(),
                    ") — logs and crash.log may stay unwritable without administrator rights",
                );
                self.warn(warning);
                self.step = Step::DeleteFile(0);
            },
        }
    }

    /// The extracted file at hand was deleted, or not.
    pub fn file_deleted(&mut self, path: &str, deleted: Deleted)
        requires
            old(self)@.step matches Step::DeleteFile(number) && number < 3,
        ensures
            final(self)@ == old(self)@.after_file(path@, deleted),
    {
        if let Step::DeleteFile(number) = self.step {
            self.step =
            if number < 2 {
                Step::DeleteFile(number + 1)
            } else {
                Step::OpenSubdir
            };
            match deleted {
                Deleted::Gone => {
                    self.removed(EXTRACTED_FILES[number]);
                },
                Deleted::Missing => {},
                Deleted::Failed(error) => {
                    let warning = worded(
                        "could not delete the stale runtime file ",
                        path,
                        error.as_str(),
                        ")",
                    );
                    self.warn(warning);
                },
            }
        }
    }

    /// The extracted directory was opened, or not.
    pub fn subdir_opened(&mut self, path: &str, opened: Opened)
        ensures
            final(self)@ == old(self)@.after_subdir(path@, opened),
    {
        match opened {
            Opened::Plain => {
                self.step = Step::DeleteSubdir;
            },
            Opened::Missing => {
                self.step = Step::Finished;
            },
            Opened::Refused(error) => {
                let warning = worded(
                    "refusing to delete ",
                    path,
                    error.as_str(),
                    ") — it is not the plain directory a WinDivert build would have left",
                );
                self.warn(warning);
                self.step = Step::Finished;
            },
        }
    }

    /// The extracted directory was deleted, or not.
    pub fn subdir_deleted(&mut self, path: &str, deleted: Result<(), String>)
        ensures
            final(self)@ == old(self)@.after_delete(path@, deleted),
    {
        match deleted {
            Ok(_) => {
                self.removed(EXTRACTED_SUBDIR);
                self.step = Step::Finished;
            },
            Err(error) => {
                let warning = worded(
                    "could not delete the extracted runtime directory ",
                    path,
                    error.as_str(),
                    ")",
                );
                self.warn(warning);
                self.step = Step::Finished;
            },
        }
    }
}

/// A cleanup about to begin in the app's folder, or one that is over before it
/// began where there is no such folder to name.
pub fn clean_windivert_leftovers<P>(root: &Option<P>) -> (cleanup: Cleanup)
    ensures
        root is Some ==> cleanup@ == Sweep::begun(),
        root is None ==> cleanup@ == Sweep::begun().at(Step::Finished),
{
    let step = match root {
        Some(_) => Step::OpenRoot,
        None => Step::Finished,
    };
    let cleanup = Cleanup { step, root_is_plain: false, found: Leftovers::default() };
    assert(cleanup@ =~= Sweep::begun().at(step));
    cleanup
}

/// A step that changes something on disk.
pub open spec fn is_destructive(step: Step) -> bool {
    step is ResetPermissions || step is DeleteFile || step is DeleteSubdir
}

/// What every reachable state of a cleanup holds: whatever is about to change
/// the disk, and whatever did, came after the folder was opened as a plain
/// directory; and the file at hand is one of the three.
pub open spec fn guarded(sweep: Sweep) -> bool {
    &&& is_destructive(sweep.step) || sweep.removed.len() > 0 || sweep.reset_dacl
        ==> sweep.root_is_plain
    &&& sweep.step is ReadPermissions || sweep.step is OpenSubdir ==> sweep.root_is_plain
    &&& sweep.step matches Step::DeleteFile(number) ==> number < 3
}

/// Nothing is deleted and no permissions are reset through a folder that was
/// not opened as a plain directory, and none is deleted through an extracted
/// directory that was not: the cleanup starts out guarded, every step it asks
/// for keeps it so, and a refusal ends it.
pub proof fn nothing_is_touched_through_a_refused_name(
    sweep: Sweep,
    path: Seq<char>,
    opened: Opened,
    read: Result<bool, String>,
    done: Result<(), String>,
    deleted: Deleted,
)
    requires
        guarded(sweep),
    ensures
        guarded(Sweep::begun()),
        sweep.step is OpenRoot ==> guarded(sweep.after_root(path, opened)),
        sweep.step is ReadPermissions ==> guarded(sweep.after_read(path, read)),
        sweep.step is ResetPermissions ==> guarded(sweep.after_reset(path, done)),
        sweep.step is DeleteFile ==> guarded(sweep.after_file(path, deleted)),
        sweep.step is OpenSubdir ==> guarded(sweep.after_subdir(path, opened)),
        sweep.step is DeleteSubdir ==> guarded(sweep.after_delete(path, done)),
        !(opened is Plain) ==> sweep.after_root(path, opened).step is Finished,
        !(opened is Plain) ==> sweep.after_subdir(path, opened).step is Finished,
        opened is Refused ==> sweep.after_root(path, opened).warnings.len() == sweep.warnings.len()
            + 1,
{
}

/// A folder in which every file is there and every delete succeeds is emptied
/// of exactly the three files and the directory.
pub proof fn a_full_cleanup_removes_all_four(root: Seq<char>, path: Seq<char>)
    ensures
        ({
            let opened = Sweep::begun().after_root(root, Opened::Plain);
            let read = opened.after_read(root, Ok(false));
            let first = read.after_file(path, Deleted::Gone);
            let second = first.after_file(path, Deleted::Gone);
            let third = second.after_file(path, Deleted::Gone);
            let done = third.after_subdir(path, Opened::Plain).after_delete(path, Ok(()));
            &&& done.step is Finished
            &&& done.warnings.len() == 0
            &&& done.removed == seq![
                EXTRACTED_FILES@[0]@,
                EXTRACTED_FILES@[1]@,
                EXTRACTED_FILES@[2]@,
                EXTRACTED_SUBDIR@,
            ]
        }),
{
    let opened = Sweep::begun().after_root(root, Opened::Plain);
    let read = opened.after_read(root, Ok(false));
    let first = read.after_file(path, Deleted::Gone);
    let second = first.after_file(path, Deleted::Gone);
    let third = second.after_file(path, Deleted::Gone);
    let done = third.after_subdir(path, Opened::Plain).after_delete(path, Ok(()));
    assert(done.removed =~= seq![
        EXTRACTED_FILES@[0]@,
        EXTRACTED_FILES@[1]@,
        EXTRACTED_FILES@[2]@,
        EXTRACTED_SUBDIR@,
    ]);
}

/// Whether a cleanup has found and done the same so far.
pub open spec fn has_done_the_same(a: Sweep, b: Sweep) -> bool {
    a.reset_dacl == b.reset_dacl && a.removed == b.removed && a.warnings == b.warnings
}

/// Where each step of a cleanup leads. A folder that is there is looked into, cut
/// off permissions are reset, and whatever came of that the three files are
/// deleted one after another, and then the directory, where there is one. What is
/// missing is passed over without a word; what went is noted by its name; and
/// what failed is warned of, once.
pub proof fn a_cleanup_goes_through_every_step(
    sweep: Sweep,
    path: Seq<char>,
    opened: Opened,
    read: Result<bool, String>,
    done: Result<(), String>,
    deleted: Deleted,
)
    ensures
        ({
            let next = sweep.after_root(path, opened);
            &&& opened is Plain ==> next.step is ReadPermissions && next.root_is_plain
                && has_done_the_same(next, sweep)
            &&& opened is Missing ==> next.step is Finished && has_done_the_same(next, sweep)
            &&& opened is Refused ==> next.step is Finished && next.warnings.drop_last()
                == sweep.warnings && next.removed == sweep.removed
        }),
        ({
            let next = sweep.after_read(path, read);
            &&& next.root_is_plain == sweep.root_is_plain && next.reset_dacl == sweep.reset_dacl
                && next.removed == sweep.removed
            &&& read == Ok::<bool, String>(true) ==> next.step is ResetPermissions && next.warnings
                == sweep.warnings
            &&& read == Ok::<bool, String>(false) ==> next.step == Step::DeleteFile(0)
                && next.warnings == sweep.warnings
            &&& read is Err ==> next.step == Step::DeleteFile(0) && next.warnings.drop_last()
                == sweep.warnings
        }),
        ({
            let next = sweep.after_reset(path, done);
            &&& next.step == Step::DeleteFile(0) && next.root_is_plain == sweep.root_is_plain
                && next.removed == sweep.removed
            &&& done is Ok ==> next.reset_dacl && next.warnings == sweep.warnings
            &&& done is Err ==> next.reset_dacl == sweep.reset_dacl && next.warnings.drop_last()
                == sweep.warnings
        }),
        sweep.step matches Step::DeleteFile(number) ==> number < 3 ==> {
            let next = sweep.after_file(path, deleted);
            &&& next.step == (if number == 2 {
                Step::OpenSubdir
            } else {
                Step::DeleteFile((number + 1) as usize)
            })
            &&& next.root_is_plain == sweep.root_is_plain && next.reset_dacl == sweep.reset_dacl
            &&& deleted is Gone ==> next.removed.drop_last() == sweep.removed && next.removed.last()
                == EXTRACTED_FILES@[number as int]@ && next.warnings == sweep.warnings
            &&& deleted is Missing ==> next.removed == sweep.removed && next.warnings
                == sweep.warnings
            &&& deleted is Failed ==> next.removed == sweep.removed && next.warnings.drop_last()
                == sweep.warnings && next.warnings.len() == sweep.warnings.len() + 1
        },
        ({
            let next = sweep.after_subdir(path, opened);
            &&& next.root_is_plain == sweep.root_is_plain && next.removed == sweep.removed
                && next.reset_dacl == sweep.reset_dacl
            &&& opened is Plain ==> next.step is DeleteSubdir && next.warnings == sweep.warnings
            &&& opened is Missing ==> next.step is Finished && next.warnings == sweep.warnings
            &&& opened is Refused ==> next.step is Finished && next.warnings.drop_last()
                == sweep.warnings
        }),
        ({
            let next = sweep.after_delete(path, done);
            &&& next.step is Finished && next.root_is_plain == sweep.root_is_plain
                && next.reset_dacl == sweep.reset_dacl
            &&& done is Ok ==> next.removed.drop_last() == sweep.removed && next.removed.last()
                == EXTRACTED_SUBDIR@ && next.warnings == sweep.warnings
            &&& done is Err ==> next.removed == sweep.removed && next.warnings.drop_last()
                == sweep.warnings
        }),
{
    assert forall|warning: Seq<char>| #[trigger]
        sweep.warnings.push(warning).drop_last() == sweep.warnings by {
        assert(sweep.warnings.push(warning).drop_last() =~= sweep.warnings);
    }
    assert forall|name: Seq<char>| #[trigger]
        sweep.removed.push(name).drop_last() == sweep.removed by {
        assert(sweep.removed.push(name).drop_last() =~= sweep.removed);
    }
}

} // verus!
