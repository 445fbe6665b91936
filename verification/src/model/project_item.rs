//! Project items (issues and pull requests) and the status columns of a board.
use vstd::prelude::*;

use crate::text::{chars_of, decimal};

verus! {

/// What a project item is backed by.
#[derive(Clone, Copy, Debug, PartialEq, Eq, Structural)]
pub enum ItemKind {
    Issue,
    PullRequest,
}

/// The short name shown for an item kind.
pub open spec fn kind_label(kind: ItemKind) -> Seq<char> {
    match kind {
        ItemKind::Issue => seq!['I', 's', 's', 'u', 'e'],
        ItemKind::PullRequest => seq!['P', 'R'],
    }
}

impl ItemKind {
    /// The short name shown for this kind: `Issue` or `PR`.
    pub fn label(&self) -> (s: String)
        ensures
            s@ == kind_label(*self),
    {
        match self {
            ItemKind::Issue => {
                let s = String::from_str("Issue");
                proof {
                    reveal_strlit("Issue");
                }
                s
            },
            ItemKind::PullRequest => {
                let s = String::from_str("PR");
                proof {
                    reveal_strlit("PR");
                }
                s
            },
        }
    }
}

/// An instant in UTC: whole seconds since the Unix epoch and the nanoseconds
/// past that second (which may exceed 999_999_999 during a leap second).
#[derive(Clone, Copy, Debug, PartialEq, Eq, Structural)]
pub struct Timestamp {
    pub secs: i64,
    pub nanos: u32,
}

/// `a` is strictly earlier than `b`.
pub open spec fn earlier(a: Timestamp, b: Timestamp) -> bool {
    a.secs < b.secs || (a.secs == b.secs && a.nanos < b.nanos)
}

impl Timestamp {
    /// Whether `self` is strictly earlier than `other`.
    pub fn is_before(&self, other: &Timestamp) -> (r: bool)
        ensures
            r == earlier(*self, *other),
    {
        self.secs < other.secs || (self.secs == other.secs && self.nanos < other.nanos)
    }
}

/// The abstract contents of a `ProjectItem`.
pub struct ItemView {
    pub id: Seq<char>,
    pub kind: ItemKind,
    pub repo: Seq<char>,
    pub number: u64,
    pub title: Seq<char>,
    pub url: Seq<char>,
    pub status: Option<Seq<char>>,
    pub assignees: Seq<Seq<char>>,
    pub labels: Seq<Seq<char>>,
    pub created_at: Timestamp,
    pub updated_at: Timestamp,
}

/// The characters of an optional string.
pub open spec fn opt_chars(o: Option<String>) -> Option<Seq<char>> {
    match o {
        Some(s) => Some(s@),
        None => None,
    }
}

/// The characters of each string of a list.
pub open spec fn strings_view(v: Seq<String>) -> Seq<Seq<char>> {
    v.map_values(|s: String| s@)
}

/// An issue or pull request on the board.
#[derive(Clone, Debug)]
pub struct ProjectItem {
    pub id: String,
    pub kind: ItemKind,
    pub repo: String,
    pub number: u64,
    pub title: String,
    pub url: String,
    pub status: Option<String>,
    pub assignees: Vec<String>,
    pub labels: Vec<String>,
    pub created_at: Timestamp,
    pub updated_at: Timestamp,
}

impl View for ProjectItem {
    type V = ItemView;

    open spec fn view(&self) -> ItemView {
        ItemView {
            id: self.id@,
            kind: self.kind,
            repo: self.repo@,
            number: self.number,
            title: self.title@,
            url: self.url@,
            status: opt_chars(self.status),
            assignees: strings_view(self.assignees@),
            labels: strings_view(self.labels@),
            created_at: self.created_at,
            updated_at: self.updated_at,
        }
    }
}

/// The views of a list of items.
pub open spec fn items_view(v: Seq<ProjectItem>) -> Seq<ItemView> {
    v.map_values(|x: ProjectItem| x@)
}

/// Viewing a list after a push is viewing the list, then pushing the view.
pub proof fn lemma_items_view_push(s: Seq<ProjectItem>, x: ProjectItem)
    ensures
        items_view(s.push(x)) == items_view(s).push(x@),
{
    assert(items_view(s.push(x)) =~= items_view(s).push(x@));
}

/// `owner/repo#number`, the reference by which an item is known.
pub open spec fn item_ref(item: ItemView) -> Seq<char> {
    item.repo + seq!['#'] + decimal(item.number as nat)
}

/// A copy of a list of strings.
pub fn copy_strings(v: &Vec<String>) -> (r: Vec<String>)
    ensures
        r@ == v@,
{
    let mut r: Vec<String> = Vec::new();
    let mut i: usize = 0;
    while i < v.len()
        invariant
            i <= v.len(),
            r@ == v@.take(i as int),
        decreases v.len() - i,
    {
        r.push(v[i].clone());
        i = i + 1;
        assert(r@ =~= v@.take(i as int));
    }
    assert(v@.take(v.len() as int) =~= v@);
    r
}

/// A copy of an optional string.
pub fn copy_opt_string(o: &Option<String>) -> (r: Option<String>)
    ensures
        r == *o,
{
    match o {
        Some(s) => Some(s.clone()),
        None => None,
    }
}

impl ProjectItem {
    /// A copy of this item.
    pub fn duplicate(&self) -> (r: ProjectItem)
        ensures
            r@ == self@,
    {
        ProjectItem {
            id: self.id.clone(),
            kind: self.kind,
            repo: self.repo.clone(),
            number: self.number,
            title: self.title.clone(),
            url: self.url.clone(),
            status: copy_opt_string(&self.status),
            assignees: copy_strings(&self.assignees),
            labels: copy_strings(&self.labels),
            created_at: self.created_at,
            updated_at: self.updated_at,
        }
    }

    /// The characters of `owner/repo#number`.
    pub fn reference_chars(&self) -> (r: Vec<char>)
        ensures
            r@ == item_ref(self@),
    {
        let mut r = chars_of(self.repo.as_str());
        r.push('#');
        crate::text::push_decimal(&mut r, self.number);
        r
    }
}

/// A status column in the project board, preserving the order defined in the project.
#[derive(Clone, Debug)]
pub struct StatusColumn {
    pub id: String,
    pub name: String,
}

impl View for StatusColumn {
    type V = (Seq<char>, Seq<char>);

    open spec fn view(&self) -> (Seq<char>, Seq<char>) {
        (self.id@, self.name@)
    }
}

impl StatusColumn {
    /// A copy of this column.
    pub fn duplicate(&self) -> (r: StatusColumn)
        ensures
            r == *self,
    {
        StatusColumn { id: self.id.clone(), name: self.name.clone() }
    }
}

} // verus!
