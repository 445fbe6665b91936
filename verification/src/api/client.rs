//! Decisions taken while fetching a project: which API address to use, how
//! the metadata response is read and when to retry it for an organization,
//! how pages of items are accumulated, and the order in which items are kept.
use vstd::prelude::*;

use super::queries;
use super::types::{
    ItemNode, ItemsResponse, MetadataResponse, FieldNode, ProjectListEntry, ProjectListResponse, columns_view, is_named_field,
    node_item, option_columns,
};
use crate::model::project_item::{
    ItemView, ProjectItem, StatusColumn, earlier, items_view, opt_chars,
};
use crate::text::{join, runs_view};

verus! {

/// The address of the public GitHub API.
pub open spec fn default_api_address() -> Seq<char> {
    seq![
        'h', 't', 't', 'p', 's', ':', '/', '/', 'a', 'p', 'i', '.', 'g', 'i', 't', 'h', 'u', 'b',
        '.', 'c', 'o', 'm',
    ]
}

/// The base address to configure on the HTTP client: none for the public
/// GitHub API, which the client uses by default, else the configured one.
pub fn custom_base_uri(api_base_url: &str) -> (r: Option<String>)
    ensures
        match r {
            None => api_base_url@ == default_api_address(),
            Some(u) => api_base_url@ != default_api_address() && u@ == api_base_url@,
        },
{
    proof {
        reveal_strlit("https://api.github.com");
        assert("https://api.github.com"@ =~= default_api_address());
    }
    let given = String::from_str(api_base_url);
    let default = String::from_str("https://api.github.com");
    if given == default {
        None
    } else {
        Some(given)
    }
}

/// Result of fetching project data: metadata + items.
#[derive(Debug)]
pub struct ProjectData {
    pub project_id: String,
    pub project_title: String,
    pub status_columns: Vec<StatusColumn>,
    pub items: Vec<ProjectItem>,
}

/// What the metadata query tells of a project.
#[derive(Debug)]
pub struct ProjectMetadata {
    pub project_id: String,
    pub project_title: String,
    pub status_field_id: String,
    pub status_columns: Vec<StatusColumn>,
}

/// Why a project could not be fetched.
#[derive(Debug)]
pub enum FetchError {
    /// The owner was not found.
    OwnerNotFound,
    /// The owner has no project with the configured number.
    ProjectNotFound,
    /// The project has no single-select field with the configured name;
    /// `available` lists the names of its fields, separated by `, `.
    StatusFieldNotFound { field: String, available: String },
    /// The metadata request failed both as a user and as an organization.
    MetadataRequestFailed,
    /// A page of items did not contain the project node.
    ProjectNodeMissing,
    /// The project list request failed both as a user and as an organization.
    ProjectListRequestFailed,
}

/// The names of the fields that have one, in order.
pub open spec fn field_names(nodes: Seq<FieldNode>) -> Seq<Seq<char>>
    decreases nodes.len(),
{
    if nodes.len() == 0 {
        seq![]
    } else {
        let rest = field_names(nodes.drop_last());
        match nodes.last().name {
            Some(n) => rest.push(n@),
            None => rest,
        }
    }
}

/// `, `
pub open spec fn list_separator() -> Seq<char> {
    seq![',', ' ']
}

/// The names of the fields that have one.
fn names_of(nodes: &Vec<FieldNode>) -> (r: Vec<Vec<char>>)
    ensures
        runs_view(r@) == field_names(nodes@),
{
    let mut r: Vec<Vec<char>> = Vec::new();
    let mut i: usize = 0;
    while i < nodes.len()
        invariant
            i <= nodes@.len(),
            runs_view(r@) == field_names(nodes@.take(i as int)),
        decreases nodes@.len() - i,
    {
        let ghost before = runs_view(r@);
        assert(nodes@.take(i + 1).drop_last() =~= nodes@.take(i as int));
        assert(nodes@.take(i + 1).last() == nodes@[i as int]);
        if let Some(n) = &nodes[i].name {
            r.push(crate::text::chars_of(n.as_str()));
            assert(runs_view(r@) =~= before.push(n@));
        }
        i = i + 1;
    }
    assert(nodes@.take(nodes@.len() as int) =~= nodes@);
    r
}

/// What reading a metadata response gives: the owner and the project must
/// be present, and the project must have a single-select field called
/// `field` (with an id); the first such field gives the status field id and
/// the columns. Otherwise the error says which part is missing.
pub open spec fn reads_metadata(response: MetadataResponse, status_field_name: Seq<char>, r: Result<ProjectMetadata, FetchError>) -> bool {
    match response.data.user {
        None => r matches Err(FetchError::OwnerNotFound),
        Some(owner) => match owner.project_v2 {
            None => r matches Err(FetchError::ProjectNotFound),
            Some(project) => {
                let nodes = project.fields.nodes@;
                if exists|i: int| 0 <= i < nodes.len() && is_named_field(#[trigger] nodes[i], status_field_name) {
                    exists|i: int|
                        0 <= i < nodes.len() && {
                            let node = #[trigger] nodes[i];
                            &&& is_named_field(node, status_field_name)
                            &&& (forall|j: int| 0 <= j < i ==> !is_named_field(#[trigger] nodes[j], status_field_name))
                            &&& r matches Ok(m) && {
                                &&& m.project_id@ == project.id@
                                &&& m.project_title@ == project.title@
                                &&& Some(m.status_field_id) == node.id
                                &&& columns_view(m.status_columns@) == option_columns(node.options@)
                            }
                        }
                } else {
                    r matches Err(FetchError::StatusFieldNotFound { field, available }) && field@
                        == status_field_name && available@ == join(field_names(nodes), list_separator())
                }
            },
        },
    }
}

/// Read the metadata response: the project id and title, and the id and
/// options of the single-select field called `status_field_name`.
pub fn parse_metadata(response: MetadataResponse, status_field_name: &str) -> (r: Result<
    ProjectMetadata,
    FetchError,
>)
    ensures
        reads_metadata(response, status_field_name@, r),
{
    let owner = match response.data.user {
        Some(o) => o,
        None => {
            return Err(FetchError::OwnerNotFound);
        },
    };
    let project = match owner.project_v2 {
        Some(p) => p,
        None => {
            return Err(FetchError::ProjectNotFound);
        },
    };
    match project.status_columns(status_field_name) {
        Some((field_id, columns)) => Ok(
            ProjectMetadata {
                project_id: project.id,
                project_title: project.title,
                status_field_id: field_id,
                status_columns: columns,
            },
        ),
        None => {
            proof {
                reveal_strlit(", ");
                assert(", "@ =~= list_separator());
            }
            let names = names_of(&project.fields.nodes);
            let sep = crate::text::chars_of(", ");
            let joined = crate::text::join_chars(&names, &sep);
            Err(
                FetchError::StatusFieldNotFound {
                    field: String::from_str(status_field_name),
                    available: crate::text::string_of(&joined),
                },
            )
        },
    }
}

/// Whom the metadata query was addressed to.
#[derive(Clone, Copy, Debug, PartialEq, Eq, Structural)]
pub enum OwnerKind {
    User,
    Organization,
}

/// The query text for an owner kind.
pub fn metadata_query(kind: OwnerKind) -> (q: &'static str)
    ensures
        q@ == (match kind {
            OwnerKind::User => queries::PROJECT_METADATA@,
            OwnerKind::Organization => queries::PROJECT_METADATA_ORG@,
        }),
{
    match kind {
        OwnerKind::User => queries::PROJECT_METADATA,
        OwnerKind::Organization => queries::PROJECT_METADATA_ORG,
    }
}

/// What to do after a metadata request.
#[derive(Debug)]
pub enum MetadataStep {
    /// Fetching the metadata has ended, with this result.
    Done(Result<ProjectMetadata, FetchError>),
    /// Ask again, addressing the owner as an organization.
    TryOrganization,
}

/// The metadata is fetched as a user first; when that request fails, as an
/// organization. Given whom the last request addressed and its response
/// (none when the request failed), says what comes next. A response that
/// arrived is read with `parse_metadata`, even when it reports no owner.
pub fn next_metadata_step(tried: OwnerKind, response: Option<MetadataResponse>, status_field_name: &str) -> (r:
    MetadataStep)
    ensures
        match response {
            Some(resp) => r matches MetadataStep::Done(m) && reads_metadata(resp, status_field_name@, m),
            None => match tried {
                OwnerKind::User => r is TryOrganization,
                OwnerKind::Organization => r matches MetadataStep::Done(Err(FetchError::MetadataRequestFailed)),
            },
        },
{
    match response {
        Some(resp) => MetadataStep::Done(parse_metadata(resp, status_field_name)),
        None => match tried {
            OwnerKind::User => MetadataStep::TryOrganization,
            OwnerKind::Organization => MetadataStep::Done(Err(FetchError::MetadataRequestFailed)),
        },
    }
}

/// The query text listing the projects of an owner kind.
pub fn project_list_query(kind: OwnerKind) -> (q: &'static str)
    ensures
        q@ == (match kind {
            OwnerKind::User => queries::PROJECT_LIST@,
            OwnerKind::Organization => queries::PROJECT_LIST_ORG@,
        }),
{
    match kind {
        OwnerKind::User => queries::PROJECT_LIST,
        OwnerKind::Organization => queries::PROJECT_LIST_ORG,
    }
}

/// What to do after a project-list request.
#[derive(Debug)]
pub enum ProjectListStep {
    /// Listing has ended, with this result.
    Done(Result<Vec<ProjectListEntry>, FetchError>),
    /// Ask again, addressing the owner as an organization.
    TryOrganization,
}

/// The projects are listed as a user first; when that request fails or
/// finds no owner, as an organization. Given whom the last request
/// addressed and its response (none when the request failed), says what
/// comes next.
pub fn next_project_list_step(tried: OwnerKind, response: Option<ProjectListResponse>) -> (r: ProjectListStep)
    ensures
        match response {
            Some(resp) if resp.data.user is Some => r matches ProjectListStep::Done(Ok(v))
                && v@ == resp.data.user.unwrap().projects_v2.nodes@,
            _ => match tried {
                OwnerKind::User => r is TryOrganization,
                OwnerKind::Organization => match response {
                    Some(_) => r matches ProjectListStep::Done(Err(FetchError::OwnerNotFound)),
                    None => r matches ProjectListStep::Done(Err(FetchError::ProjectListRequestFailed)),
                },
            },
        },
{
    match response {
        Some(resp) => match resp.data.user {
            Some(owner) => ProjectListStep::Done(Ok(owner.projects_v2.nodes)),
            None => match tried {
                OwnerKind::User => ProjectListStep::TryOrganization,
                OwnerKind::Organization => ProjectListStep::Done(Err(FetchError::OwnerNotFound)),
            },
        },
        None => match tried {
            OwnerKind::User => ProjectListStep::TryOrganization,
            OwnerKind::Organization => ProjectListStep::Done(Err(FetchError::ProjectListRequestFailed)),
        },
    }
}

// ---------------------------------------------------------------------------
// Pages of items
// ---------------------------------------------------------------------------

/// The items that a page of nodes yields, in order: absent nodes and nodes
/// without content (drafts and the like) are skipped.
pub open spec fn page_items(nodes: Seq<Option<ItemNode>>, field: Seq<char>) -> Seq<ItemView>
    decreases nodes.len(),
{
    if nodes.len() == 0 {
        seq![]
    } else {
        let rest = page_items(nodes.drop_last(), field);
        match nodes.last() {
            Some(n) => match node_item(n, field) {
                Some(item) => rest.push(item),
                None => rest,
            },
            None => rest,
        }
    }
}

/// Accumulates the items of a project page by page.
pub struct ItemsPager {
    items: Vec<ProjectItem>,
    cursor: Option<String>,
    finished: bool,
}

impl ItemsPager {
    /// The items gathered so far.
    pub closed spec fn gathered(&self) -> Seq<ItemView> {
        items_view(self.items@)
    }

    /// Where the next page starts (none for the first page).
    pub closed spec fn next_cursor(&self) -> Option<Seq<char>> {
        opt_chars(self.cursor)
    }

    /// The last page has been read.
    pub closed spec fn done(&self) -> bool {
        self.finished
    }

    /// A pager before the first page.
    pub fn new() -> (p: ItemsPager)
        ensures
            p.gathered() == Seq::<ItemView>::empty(),
            p.next_cursor() is None,
            !p.done(),
    {
        ItemsPager { items: Vec::new(), cursor: None, finished: false }
    }

    /// Where the next page starts, to be passed as the `cursor` variable.
    pub fn cursor(&self) -> (c: Option<String>)
        ensures
            opt_chars(c) == self.next_cursor(),
    {
        match &self.cursor {
            Some(c) => Some(c.clone()),
            None => None,
        }
    }

    /// Whether the last page has been read.
    pub fn is_finished(&self) -> (r: bool)
        ensures
            r == self.done(),
    {
        self.finished
    }

    /// Read one page. Without the project node the page is refused and the
    /// pager is left as it was. Otherwise its items are appended; when
    /// another page follows, its cursor becomes the next one, else the pager
    /// is done.
    pub fn accept_page(&mut self, response: ItemsResponse, status_field_name: &str) -> (r: Result<(), FetchError>)
        requires
            !old(self).done(),
        ensures
            match response.data.node {
                None => r matches Err(FetchError::ProjectNodeMissing) && final(self).gathered() == old(self).gathered()
                    && final(self).next_cursor() == old(self).next_cursor() && !final(self).done(),
                Some(project) => r is Ok && final(self).gathered() == old(self).gathered() + page_items(
                    project.items.nodes@,
                    status_field_name@,
                ) && final(self).done() == !project.items.page_info.has_next_page && (
                project.items.page_info.has_next_page ==> final(self).next_cursor() == opt_chars(
                    project.items.page_info.end_cursor,
                )) && (!project.items.page_info.has_next_page ==> final(self).next_cursor()
                    == old(self).next_cursor()),
            },
    {
        let project = match response.data.node {
            Some(p) => p,
            None => {
                return Err(FetchError::ProjectNodeMissing);
            },
        };
        let connection = project.items;
        let ghost start = items_view(self.items@);
        let ghost cursor0 = self.cursor;
        let ghost nodes = connection.nodes@;
        let mut i: usize = 0;
        while i < connection.nodes.len()
            invariant
                i <= nodes.len(),
                nodes == connection.nodes@,
                !self.finished,
                self.cursor == cursor0,
                items_view(self.items@) == start + page_items(nodes.take(i as int), status_field_name@),
            decreases nodes.len() - i,
        {
            let ghost before = items_view(self.items@);
            assert(nodes.take(i + 1).drop_last() =~= nodes.take(i as int));
            assert(nodes.take(i + 1).last() == nodes[i as int]);
            if let Some(node) = &connection.nodes[i] {
                if let Some(item) = node.to_project_item(status_field_name) {
                    self.items.push(item);
                    assert(items_view(self.items@) =~= before.push(item@));
                }
            }
            i = i + 1;
        }
        assert(nodes.take(nodes.len() as int) =~= nodes);
        if connection.page_info.has_next_page {
            self.cursor = connection.page_info.end_cursor;
        } else {
            self.finished = true;
        }
        Ok(())
    }

    /// All gathered items, newest update first (see `sort_by_recency`).
    pub fn into_items(self) -> (items: Vec<ProjectItem>)
        ensures
            sorted_by_recency(items_view(items@)),
            exists|p: Seq<int>| is_stable_arrangement(self.gathered(), items_view(items@), p),
    {
        let ghost g = self.gathered();
        let out = sort_by_recency(self.items);
        proof {
            let p = choose|p: Seq<int>| is_stable_arrangement(g, items_view(out@), p);
            assert(is_stable_arrangement(self.gathered(), items_view(out@), p));
        }
        out
    }
}

// ---------------------------------------------------------------------------
// Order of items
// ---------------------------------------------------------------------------

/// `a` is listed before `b`: its last update is more recent, or both were
/// updated at the same instant and `a` has the smaller number.
pub open spec fn goes_before(a: ItemView, b: ItemView) -> bool {
    earlier(b.updated_at, a.updated_at) || (b.updated_at == a.updated_at && a.number < b.number)
}

/// `a` and `b` are equal in that order.
pub open spec fn same_rank(a: ItemView, b: ItemView) -> bool {
    a.updated_at == b.updated_at && a.number == b.number
}

/// No item of `s` should go before an item that precedes it.
pub open spec fn sorted_by_recency(s: Seq<ItemView>) -> bool {
    forall|i: int, j: int| 0 <= i < j < s.len() ==> !goes_before(#[trigger] s[j], #[trigger] s[i])
}

/// `out` is `inp` rearranged by `p` (`out[i] == inp[p[i]]`, `p` a
/// permutation), and items of equal rank keep their relative order.
pub open spec fn is_stable_arrangement(inp: Seq<ItemView>, out: Seq<ItemView>, p: Seq<int>) -> bool {
    &&& p.len() == inp.len()
    &&& out.len() == inp.len()
    &&& forall|i: int| 0 <= i < p.len() ==> 0 <= #[trigger] p[i] < inp.len()
    &&& forall|i: int, j: int| 0 <= i < j < p.len() ==> #[trigger] p[i] != #[trigger] p[j]
    &&& forall|i: int| 0 <= i < out.len() ==> #[trigger] out[i] == inp[p[i]]
    &&& forall|i: int, j: int|
        0 <= i < j < out.len() && same_rank(#[trigger] out[i], #[trigger] out[j]) ==> p[i] < p[j]
}

/// Whether `a` goes before `b`.
pub fn goes_before_exec(a: &ProjectItem, b: &ProjectItem) -> (r: bool)
    ensures
        r == goes_before(a@, b@),
{
    b.updated_at.is_before(&a.updated_at) || (b.updated_at == a.updated_at && a.number < b.number)
}

/// Sort by updated_at desc, then number asc as tie-breaker, keeping the
/// input order among items of equal rank.
pub fn sort_by_recency(items: Vec<ProjectItem>) -> (out: Vec<ProjectItem>)
    ensures
        sorted_by_recency(items_view(out@)),
        exists|p: Seq<int>| is_stable_arrangement(items_view(items@), items_view(out@), p),
{
    let ghost inp = items_view(items@);
    let n: usize = items.len();
    let mut items = items;
    // Reverse the input so that popping yields the items in their order.
    let mut rev: Vec<ProjectItem> = Vec::new();
    while items.len() > 0
        invariant
            items@.len() + rev@.len() == n,
            n == inp.len(),
            forall|k: int| 0 <= k < items@.len() ==> #[trigger] items@[k]@ == inp[k],
            forall|k: int| 0 <= k < rev@.len() ==> #[trigger] rev@[k]@ == inp[n - 1 - k],
        decreases items@.len(),
    {
        let x = items.pop().unwrap();
        rev.push(x);
    }
    let mut out: Vec<ProjectItem> = Vec::new();
    let ghost mut perm: Seq<int> = seq![];
    let mut i: usize = 0;
    while rev.len() > 0
        invariant
            i + rev@.len() == n,
            n == inp.len(),
            forall|k: int| 0 <= k < rev@.len() ==> #[trigger] rev@[k]@ == inp[n - 1 - k],
            out@.len() == i,
            sorted_by_recency(items_view(out@)),
            is_stable_arrangement(inp.take(i as int), items_view(out@), perm),
        decreases rev@.len(),
    {
        let x = rev.pop().unwrap();
        assert(x@ == inp[i as int]);
        let ghost ov = items_view(out@);
        let mut pos: usize = out.len();
        while pos > 0 && goes_before_exec(&x, &out[pos - 1])
            invariant
                pos <= out@.len(),
                ov == items_view(out@),
                forall|q: int| pos <= q < ov.len() ==> goes_before(x@, #[trigger] ov[q]),
            decreases pos,
        {
            pos = pos - 1;
        }
        let ghost xv = x@;
        proof {
            if pos > 0 {
                assert(!goes_before(xv, ov[pos - 1]));
            }
        }
        out.insert(pos, x);
        i = i + 1;
        proof {
            let nv = items_view(out@);
            let old_perm = perm;
            perm = old_perm.insert(pos as int, i - 1);
            assert(nv =~= ov.insert(pos as int, xv));
            let t = inp.take(i as int);
            let t0 = inp.take(i - 1);
            assert forall|a: int, b: int| 0 <= a < b < nv.len() implies !goes_before(#[trigger] nv[b], #[trigger] nv[a]) by {
                if b < pos {
                    assert(nv[a] == ov[a] && nv[b] == ov[b]);
                } else if b == pos {
                    assert(nv[a] == ov[a]);
                    assert(!goes_before(xv, ov[pos - 1]));
                    if a < pos - 1 {
                        assert(!goes_before(ov[pos - 1], ov[a]));
                    }
                } else if a < pos {
                    assert(nv[a] == ov[a] && nv[b] == ov[b - 1]);
                    if a < pos - 1 {
                        assert(!goes_before(ov[b - 1], ov[a]));
                    }
                } else if a == pos {
                    assert(nv[b] == ov[b - 1]);
                    assert(goes_before(xv, ov[b - 1]));
                } else {
                    assert(nv[a] == ov[a - 1] && nv[b] == ov[b - 1]);
                }
            }
            assert forall|k: int| 0 <= k < perm.len() implies 0 <= #[trigger] perm[k] < t.len() by {
                if k < pos {
                    assert(perm[k] == old_perm[k]);
                } else if k > pos {
                    assert(perm[k] == old_perm[k - 1]);
                }
            }
            assert forall|a: int, b: int| 0 <= a < b < perm.len() implies #[trigger] perm[a] != #[trigger] perm[b] by {
                if a < pos && b < pos {
                    assert(perm[a] == old_perm[a] && perm[b] == old_perm[b]);
                } else if a < pos && b == pos {
                    assert(perm[a] == old_perm[a]);
                } else if a < pos {
                    assert(perm[a] == old_perm[a] && perm[b] == old_perm[b - 1]);
                } else if a == pos {
                    assert(perm[b] == old_perm[b - 1]);
                } else {
                    assert(perm[a] == old_perm[a - 1] && perm[b] == old_perm[b - 1]);
                }
            }
            assert forall|k: int| 0 <= k < nv.len() implies #[trigger] nv[k] == t[perm[k]] by {
                if k < pos {
                    assert(nv[k] == ov[k] && perm[k] == old_perm[k]);
                    assert(ov[k] == t0[old_perm[k]]);
                } else if k > pos {
                    assert(nv[k] == ov[k - 1] && perm[k] == old_perm[k - 1]);
                    assert(ov[k - 1] == t0[old_perm[k - 1]]);
                }
            }
            assert forall|a: int, b: int|
                0 <= a < b < nv.len() && same_rank(#[trigger] nv[a], #[trigger] nv[b]) implies perm[a] < perm[b] by {
                if a < pos && b < pos {
                    assert(nv[a] == ov[a] && nv[b] == ov[b]);
                    assert(perm[a] == old_perm[a] && perm[b] == old_perm[b]);
                } else if a < pos && b == pos {
                    assert(perm[a] == old_perm[a]);
                } else if a < pos {
                    assert(nv[a] == ov[a] && nv[b] == ov[b - 1]);
                    assert(perm[a] == old_perm[a] && perm[b] == old_perm[b - 1]);
                } else if a == pos {
                    assert(nv[b] == ov[b - 1]);
                    assert(goes_before(xv, ov[b - 1]));
                } else {
                    assert(nv[a] == ov[a - 1] && nv[b] == ov[b - 1]);
                    assert(perm[a] == old_perm[a - 1] && perm[b] == old_perm[b - 1]);
                }
            }
        }
    }
    assert(inp.take(n as int) =~= inp);
    out
}

/// Whether a project is large enough to warrant a warning (more than 500 items).
pub fn is_large_project(item_count: usize) -> (r: bool)
    ensures
        r == (item_count > 500),
{
    item_count > 500
}

/// In a list in this order, an item comes before every item updated later
/// than it was, and among items updated at the same instant the smaller
/// number comes first.
pub proof fn law_sorted_means_newest_first(s: Seq<ItemView>, i: int, j: int)
    requires
        sorted_by_recency(s),
        0 <= i < j < s.len(),
    ensures
        s[j].updated_at.secs < s[i].updated_at.secs || (s[j].updated_at.secs == s[i].updated_at.secs
            && s[j].updated_at.nanos <= s[i].updated_at.nanos),
        s[i].updated_at == s[j].updated_at ==> s[i].number <= s[j].number,
{
    assert(!goes_before(s[j], s[i]));
}

/// A page yields its items in order: an absent node or one without content
/// adds nothing, and a node with content adds its item at the end.
pub proof fn law_page_items_step(nodes: Seq<Option<ItemNode>>, n: ItemNode, field: Seq<char>)
    ensures
        page_items(nodes.push(None), field) == page_items(nodes, field),
        n.content is None ==> page_items(nodes.push(Some(n)), field) == page_items(nodes, field),
        n.content is Some ==> page_items(nodes.push(Some(n)), field) == page_items(nodes, field).push(
            node_item(n, field).unwrap(),
        ),
        page_items(Seq::<Option<ItemNode>>::empty(), field) == Seq::<ItemView>::empty(),
{
    assert(nodes.push(None).drop_last() =~= nodes);
    assert(nodes.push(Some(n)).drop_last() =~= nodes);
}

} // verus!
