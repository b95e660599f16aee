//! Folders of a user.

use vstd::prelude::*;
use vstd::string::*;

use crate::error;
use crate::error::{ApiError, ApiResult, ErrorKind};
use crate::ids::Uuid;
use crate::routes::common;

verus! {

/// A request for a new folder.
#[derive(Debug)]
pub struct CreateFolderRequest {
    pub name: String,
    pub parent_id: Option<Uuid>,
}

/// A request to change a folder. What is missing stays as it is.
#[derive(Debug)]
pub struct UpdateFolderRequest {
    pub name: Option<String>,
    pub parent_id: Option<Uuid>,
    pub position: Option<i32>,
}

/// A request to move a folder among the folders beside it.
#[derive(Clone, Copy, Debug, PartialEq, Eq, Structural)]
pub struct ReorderFolderRequest {
    pub position: i32,
}

/// What goes with a list of folders.
#[derive(Clone, Copy, Debug, PartialEq, Eq, Structural)]
pub struct ListMeta {
    pub total: i64,
}

/// What goes with a list of some folders.
pub fn list_meta(count: usize) -> (res: ListMeta)
    ensures
        res.total == count as i64,
{
    ListMeta {
        total:
            #[verifier::truncate]
            (count as i64),
    }
}

/// What the database is asked before a folder is changed, always with yes or no.
#[derive(Clone, Copy, Debug, PartialEq, Eq, Structural)]
pub enum FolderCheck {
    /// Does the user have the folder?
    Exists,
    /// Does the user have the folder that is to be its parent?
    ParentExists,
    /// Is the folder that is to be its parent somewhere below it?
    ParentIsDescendant,
    /// Is there another folder of its name beside it?
    NameTaken,
    /// Nothing: the change can be made.
    Ready,
}

/// What is said of a name that is taken.
pub open spec fn name_taken() -> Seq<char> {
    "A folder with this name already exists at this level"@
}

impl CreateFolderRequest {
    /// The name has between 1 and 100 characters.
    pub fn has_valid_name(&self) -> (res: bool)
        ensures
            res == common::within(self.name@, 1, 100),
    {
        common::is_within(self.name.as_str(), 1, 100)
    }

    /// What is asked first.
    pub open spec fn first(self) -> FolderCheck {
        if self.parent_id is Some {
            FolderCheck::ParentExists
        } else {
            FolderCheck::NameTaken
        }
    }

    /// What is asked first.
    pub fn first_check(&self) -> (res: FolderCheck)
        ensures
            res == self.first(),
    {
        if self.parent_id.is_some() {
            FolderCheck::ParentExists
        } else {
            FolderCheck::NameTaken
        }
    }

    /// What is asked next, after an answer, or why the folder cannot be created.
    pub fn next_check(&self, check: FolderCheck, answer: bool) -> (res: ApiResult<FolderCheck>)
        requires
            check == FolderCheck::ParentExists || check == FolderCheck::NameTaken,
        ensures
            match (check, answer) {
                (FolderCheck::ParentExists, true) => res == Ok::<FolderCheck, ApiError>(
                    FolderCheck::NameTaken,
                ),
                (FolderCheck::ParentExists, false) => error::fails(
                    res,
                    ErrorKind::NotFound,
                    "Parent folder not found"@,
                ),
                (_, true) => error::fails(res, ErrorKind::Conflict, name_taken()),
                (_, false) => res == Ok::<FolderCheck, ApiError>(FolderCheck::Ready),
            },
    {
        if check == FolderCheck::ParentExists {
            if answer {
                Ok(FolderCheck::NameTaken)
            } else {
                Err(ApiError::NotFound("Parent folder not found".to_string()))
            }
        } else if answer {
            Err(
                ApiError::Conflict(
                    "A folder with this name already exists at this level".to_string(),
                ),
            )
        } else {
            Ok(FolderCheck::Ready)
        }
    }
}

/// What becomes of a change after an answer: the next question, or the failure.
pub enum Outcome {
    Next(FolderCheck),
    Fails(ErrorKind, Seq<char>),
}

impl UpdateFolderRequest {
    /// A new name has between 1 and 100 characters.
    pub fn has_valid_name(&self) -> (res: bool)
        ensures
            res == (self.name matches Some(name) ==> common::within(name@, 1, 100)),
    {
        match &self.name {
            Some(name) => common::is_within(name.as_str(), 1, 100),
            None => true,
        }
    }

    /// What is asked once the parent is settled: only a new name can be taken.
    pub open spec fn after_parent(self) -> FolderCheck {
        if self.name is Some {
            FolderCheck::NameTaken
        } else {
            FolderCheck::Ready
        }
    }

    /// What becomes of the change of a folder after an answer. A folder never becomes its own
    /// parent, nor goes under a folder below it.
    pub open spec fn outcome(self, folder_id: Uuid, check: FolderCheck, answer: bool) -> Outcome {
        match check {
            FolderCheck::Exists => if !answer {
                Outcome::Fails(ErrorKind::NotFound, "Folder not found"@)
            } else {
                match self.parent_id {
                    Some(parent) => if parent == folder_id {
                        Outcome::Fails(
                            ErrorKind::Validation,
                            "Cannot set folder as its own parent"@,
                        )
                    } else {
                        Outcome::Next(FolderCheck::ParentExists)
                    },
                    None => Outcome::Next(self.after_parent()),
                }
            },
            FolderCheck::ParentExists => if answer {
                Outcome::Next(FolderCheck::ParentIsDescendant)
            } else {
                Outcome::Fails(ErrorKind::NotFound, "Parent folder not found"@)
            },
            FolderCheck::ParentIsDescendant => if answer {
                Outcome::Fails(
                    ErrorKind::Validation,
                    "Cannot move folder under its own descendant"@,
                )
            } else {
                Outcome::Next(self.after_parent())
            },
            FolderCheck::NameTaken => if answer {
                Outcome::Fails(ErrorKind::Conflict, name_taken())
            } else {
                Outcome::Next(FolderCheck::Ready)
            },
            FolderCheck::Ready => Outcome::Next(FolderCheck::Ready),
        }
    }

    /// What is asked next, after an answer, or why the folder cannot be changed. The first
    /// question is whether the folder exists.
    pub fn next_check(&self, folder_id: Uuid, check: FolderCheck, answer: bool) -> (res: ApiResult<
        FolderCheck,
    >)
        ensures
            match self.outcome(folder_id, check, answer) {
                Outcome::Next(next) => res == Ok::<FolderCheck, ApiError>(next),
                Outcome::Fails(kind, message) => error::fails(res, kind, message),
            },
    {
        let after_parent: FolderCheck = if self.name.is_some() {
            FolderCheck::NameTaken
        } else {
            FolderCheck::Ready
        };
        match check {
            FolderCheck::Exists => {
                if !answer {
                    return Err(ApiError::NotFound("Folder not found".to_string()));
                }
                match self.parent_id {
                    Some(parent) => if parent == folder_id {
                        Err(
                            ApiError::Validation("Cannot set folder as its own parent".to_string()),
                        )
                    } else {
                        Ok(FolderCheck::ParentExists)
                    },
                    None => Ok(after_parent),
                }
            },
            FolderCheck::ParentExists => if answer {
                Ok(FolderCheck::ParentIsDescendant)
            } else {
                Err(ApiError::NotFound("Parent folder not found".to_string()))
            },
            FolderCheck::ParentIsDescendant => if answer {
                Err(
                    ApiError::Validation(
                        "Cannot move folder under its own descendant".to_string(),
                    ),
                )
            } else {
                Ok(after_parent)
            },
            FolderCheck::NameTaken => if answer {
                Err(
                    ApiError::Conflict(
                        "A folder with this name already exists at this level".to_string(),
                    ),
                )
            } else {
                Ok(FolderCheck::Ready)
            },
            FolderCheck::Ready => Ok(FolderCheck::Ready),
        }
    }
}

/// The folder some steps above another, where there is one. `parents` holds the parent of
/// every folder that has one.
pub open spec fn above(parents: Map<Uuid, Uuid>, id: Uuid, steps: nat) -> Option<Uuid>
    decreases steps,
{
    if steps == 0 {
        Some(id)
    } else if parents.contains_key(id) {
        above(parents, parents[id], (steps - 1) as nat)
    } else {
        None
    }
}

/// Whether the way up from a folder ends.
pub open spec fn reaches_top(parents: Map<Uuid, Uuid>, id: Uuid) -> bool {
    exists|steps: nat| #[trigger] above(parents, id, steps) is None
}

/// Whether a folder is somewhere below another.
pub open spec fn is_below(parents: Map<Uuid, Uuid>, id: Uuid, ancestor: Uuid) -> bool {
    exists|steps: nat| steps > 0 && #[trigger] above(parents, id, steps) == Some(ancestor)
}

proof fn lemma_step_up(parents: Map<Uuid, Uuid>, id: Uuid)
    requires
        parents.contains_key(id),
        reaches_top(parents, parents[id]),
    ensures
        reaches_top(parents, id),
{
    let steps = choose|steps: nat| #[trigger] above(parents, parents[id], steps) is None;
    assert(above(parents, id, steps + 1) is None);
}

proof fn lemma_untouched(
    before: Map<Uuid, Uuid>,
    folder: Uuid,
    parent: Uuid,
    id: Uuid,
    steps: nat,
)
    requires
        above(before, id, steps) is None,
        id != folder,
        !is_below(before, id, folder),
    ensures
        reaches_top(before.insert(folder, parent), id),
    decreases steps,
{
    let after = before.insert(folder, parent);
    if before.contains_key(id) {
        let next = before[id];
        assert(above(before, id, 1) == above(before, next, 0));
        assert(above(before, id, 1) == Some(next));
        assert forall|k: nat| k > 0 implies #[trigger] above(before, next, k) != Some(folder) by {
            assert(above(before, id, k + 1) == above(before, next, k));
        }
        lemma_untouched(before, folder, parent, next, (steps - 1) as nat);
        lemma_step_up(after, id);
    } else {
        assert(above(after, id, 1) is None);
    }
}

proof fn lemma_still_reaches_top(
    before: Map<Uuid, Uuid>,
    folder: Uuid,
    parent: Uuid,
    id: Uuid,
    steps: nat,
)
    requires
        above(before, id, steps) is None,
        reaches_top(before, parent),
        parent != folder,
        !is_below(before, parent, folder),
    ensures
        reaches_top(before.insert(folder, parent), id),
    decreases steps,
{
    let after = before.insert(folder, parent);
    if id == folder {
        let n = choose|n: nat| #[trigger] above(before, parent, n) is None;
        lemma_untouched(before, folder, parent, parent, n);
        lemma_step_up(after, folder);
    } else if before.contains_key(id) {
        lemma_still_reaches_top(before, folder, parent, before[id], (steps - 1) as nat);
        lemma_step_up(after, id);
    } else {
        assert(above(after, id, 1) is None);
    }
}

/// The checks keep folders from running in circles: where the way up from every folder ends,
/// and a folder gets a parent that is neither the folder itself nor below it, the way up from
/// every folder still ends.
pub proof fn checked_moves_keep_the_tree(before: Map<Uuid, Uuid>, folder: Uuid, parent: Uuid)
    requires
        forall|id: Uuid| #[trigger] reaches_top(before, id),
        parent != folder,
        !is_below(before, parent, folder),
    ensures
        forall|id: Uuid| #[trigger] reaches_top(before.insert(folder, parent), id),
{
    assert forall|id: Uuid| #[trigger] reaches_top(before.insert(folder, parent), id) by {
        assert(reaches_top(before, id));
        assert(reaches_top(before, parent));
        let steps = choose|steps: nat| #[trigger] above(before, id, steps) is None;
        lemma_still_reaches_top(before, folder, parent, id, steps);
    }
}

impl UpdateFolderRequest {
    /// Whether the change of a folder is carried out in the end, from a question on, with these
    /// answers.
    pub open spec fn accepted(
        self,
        folder_id: Uuid,
        answers: spec_fn(FolderCheck) -> bool,
        check: FolderCheck,
        questions: nat,
    ) -> bool
        decreases questions,
    {
        if check == FolderCheck::Ready {
            true
        } else if questions == 0 {
            false
        } else {
            match self.outcome(folder_id, check, answers(check)) {
                Outcome::Next(next) => self.accepted(
                    folder_id,
                    answers,
                    next,
                    (questions - 1) as nat,
                ),
                Outcome::Fails(_, _) => false,
            }
        }
    }
}

/// A change that is carried out never makes folders run in circles: where the way up from
/// every folder ends, and the question for the parent is answered truly, the way up from every
/// folder still ends.
pub proof fn accepted_changes_keep_the_tree(
    request: UpdateFolderRequest,
    folder: Uuid,
    answers: spec_fn(FolderCheck) -> bool,
    before: Map<Uuid, Uuid>,
)
    requires
        request.accepted(folder, answers, FolderCheck::Exists, 4),
        request.parent_id matches Some(parent) ==> answers(FolderCheck::ParentIsDescendant)
            == is_below(before, parent, folder),
        forall|id: Uuid| #[trigger] reaches_top(before, id),
    ensures
        request.parent_id matches Some(parent) ==> forall|id: Uuid| #[trigger]
            reaches_top(before.insert(folder, parent), id),
{
    reveal_with_fuel(UpdateFolderRequest::accepted, 5);
    if let Some(parent) = request.parent_id {
        checked_moves_keep_the_tree(before, folder, parent);
    }
}

/// How the folders beside a folder move when it moves.
#[derive(Clone, Copy, Debug, PartialEq, Eq, Structural)]
pub enum Shift {
    /// Nothing moves.
    Nothing,
    /// Those from the first position up to, not with, the second move down by one.
    Down { from: i32, before: i32 },
    /// Those behind the first position up to and with the second move up by one.
    Up { behind: i32, to: i32 },
}

/// How the folders beside a folder move when it moves.
pub open spec fn shift_for(current: i32, new: i32) -> Shift {
    if new == current {
        Shift::Nothing
    } else if new < current {
        Shift::Down { from: new, before: current }
    } else {
        Shift::Up { behind: current, to: new }
    }
}

impl ReorderFolderRequest {
    /// How the folders beside a folder make room for it.
    pub fn shift(&self, current: i32) -> (res: Shift)
        ensures
            res == shift_for(current, self.position),
    {
        if self.position == current {
            Shift::Nothing
        } else if self.position < current {
            Shift::Down { from: self.position, before: current }
        } else {
            Shift::Up { behind: current, to: self.position }
        }
    }
}

/// Where a folder beside the moved one ends up.
pub open spec fn shifted(position: int, shift: Shift) -> int {
    match shift {
        Shift::Nothing => position,
        Shift::Down { from, before } => if from <= position < before {
            position + 1
        } else {
            position
        },
        Shift::Up { behind, to } => if behind < position <= to {
            position - 1
        } else {
            position
        },
    }
}

/// Moving a folder keeps the folders beside it apart and in order, and its new position is its
/// own.
pub proof fn moving_keeps_the_order(current: i32, new: i32, a: int, b: int)
    requires
        a < b,
        a != current,
        b != current,
    ensures
        shifted(a, shift_for(current, new)) < shifted(b, shift_for(current, new)),
        shifted(a, shift_for(current, new)) != new,
        shifted(b, shift_for(current, new)) != new,
{
}

/// A folder is changed if and only if it is there, its new parent, where it gets one, is there and
/// is neither the folder itself nor below it, and its new name, where it gets one, is free.
pub proof fn folder_is_changed_where_nothing_speaks_against_it(
    request: UpdateFolderRequest,
    folder: Uuid,
    answers: spec_fn(FolderCheck) -> bool,
)
    ensures
        request.accepted(folder, answers, FolderCheck::Exists, 4) <==> {
            &&& answers(FolderCheck::Exists)
            &&& request.parent_id matches Some(parent) ==> parent != folder && answers(
                FolderCheck::ParentExists,
            ) && !answers(FolderCheck::ParentIsDescendant)
            &&& request.name is Some ==> !answers(FolderCheck::NameTaken)
        },
{
    reveal_with_fuel(UpdateFolderRequest::accepted, 5);
}

/// A change that is refused says why: what is not there is not found, a name that is taken is a
/// conflict, and a parent that would make folders run in circles is not accepted.
pub proof fn refused_change_says_why(
    request: UpdateFolderRequest,
    folder: Uuid,
    check: FolderCheck,
    answer: bool,
    res: ApiResult<FolderCheck>,
)
    requires
        call_ensures(UpdateFolderRequest::next_check, (&request, folder, check, answer), res),
    ensures
        check == FolderCheck::Exists && !answer ==> error::fails(
            res,
            ErrorKind::NotFound,
            "Folder not found"@,
        ),
        check == FolderCheck::Exists && answer && request.parent_id == Some(folder)
            ==> error::fails(
            res,
            ErrorKind::Validation,
            "Cannot set folder as its own parent"@,
        ),
        check == FolderCheck::ParentExists && !answer ==> error::fails(
            res,
            ErrorKind::NotFound,
            "Parent folder not found"@,
        ),
        check == FolderCheck::ParentIsDescendant && answer ==> error::fails(
            res,
            ErrorKind::Validation,
            "Cannot move folder under its own descendant"@,
        ),
        check == FolderCheck::NameTaken && answer ==> error::fails(
            res,
            ErrorKind::Conflict,
            "A folder with this name already exists at this level"@,
        ),
        check == FolderCheck::NameTaken && !answer ==> res == Ok::<FolderCheck, ApiError>(
            FolderCheck::Ready,
        ),
{
}

/// A folder is created if and only if its parent, where it gets one, is there, and its name is
/// free: the parent is asked for first, and the name always.
pub proof fn folder_is_created_where_its_name_is_free(
    request: CreateFolderRequest,
    first: FolderCheck,
    parent_there: ApiResult<FolderCheck>,
    parent_missing: ApiResult<FolderCheck>,
    name_free: ApiResult<FolderCheck>,
    name_used: ApiResult<FolderCheck>,
)
    requires
        call_ensures(CreateFolderRequest::first_check, (&request,), first),
        call_ensures(
            CreateFolderRequest::next_check,
            (&request, FolderCheck::ParentExists, true),
            parent_there,
        ),
        call_ensures(
            CreateFolderRequest::next_check,
            (&request, FolderCheck::ParentExists, false),
            parent_missing,
        ),
        call_ensures(
            CreateFolderRequest::next_check,
            (&request, FolderCheck::NameTaken, false),
            name_free,
        ),
        call_ensures(
            CreateFolderRequest::next_check,
            (&request, FolderCheck::NameTaken, true),
            name_used,
        ),
    ensures
        request.parent_id is Some <==> first == FolderCheck::ParentExists,
        request.parent_id is None <==> first == FolderCheck::NameTaken,
        parent_there == Ok::<FolderCheck, ApiError>(FolderCheck::NameTaken),
        error::fails(parent_missing, ErrorKind::NotFound, "Parent folder not found"@),
        name_free == Ok::<FolderCheck, ApiError>(FolderCheck::Ready),
        error::fails(
            name_used,
            ErrorKind::Conflict,
            "A folder with this name already exists at this level"@,
        ),
{
}

/// The name of a folder has from 1 to 100 characters, and a change without a name is as good as
/// one with such a name.
pub proof fn folder_names_have_a_length(
    created: CreateFolderRequest,
    create: bool,
    changed: UpdateFolderRequest,
    change: bool,
)
    requires
        call_ensures(CreateFolderRequest::has_valid_name, (&created,), create),
        call_ensures(UpdateFolderRequest::has_valid_name, (&changed,), change),
    ensures
        create <==> 0 < created.name@.len() < 101,
        changed.name is None ==> change,
        changed.name matches Some(name) ==> (change <==> 0 < name@.len() < 101),
{
}

/// A folder that moves makes room by one: only the folders between its old and its new position
/// move, by one position each, towards the old one, and that one is then filled.
pub proof fn folders_move_by_one(request: ReorderFolderRequest, current: i32, res: Shift, a: int)
    requires
        call_ensures(ReorderFolderRequest::shift, (&request, current), res),
        a != current,
    ensures
        request.position < current && request.position <= a < current ==> shifted(a, res) == a + 1,
        current < request.position && current < a <= request.position ==> shifted(a, res) == a - 1,
        (a < request.position && a < current) || (a > request.position && a > current) ==> shifted(
            a,
            res,
        ) == a,
        request.position == current ==> shifted(a, res) == a,
{
}

} // verus!
