//! Shapes of the GraphQL responses, and their decoding into the domain model.
use vstd::prelude::*;

use crate::model::project_item::{
    ItemKind, ItemView, ProjectItem, StatusColumn, Timestamp, opt_chars, strings_view,
};
use crate::text::{chars_of, contains_chars, contains_run};

verus! {

// --- Project List Response ---

/// Response to the query listing the projects of an owner.
#[derive(Debug)]
pub struct ProjectListResponse {
    pub data: ProjectListData,
}

/// The owner found by the project list query, if any.
#[derive(Debug)]
pub struct ProjectListData {
    pub user: Option<ProjectListOwner>,
}

/// An owner and its projects.
#[derive(Debug)]
pub struct ProjectListOwner {
    pub projects_v2: ProjectListConnection,
}

/// The projects of an owner.
#[derive(Debug)]
pub struct ProjectListConnection {
    pub nodes: Vec<ProjectListEntry>,
}

/// One project of an owner.
#[derive(Debug, Clone)]
pub struct ProjectListEntry {
    pub number: u32,
    pub title: String,
    pub short_description: Option<String>,
    pub closed: bool,
    pub items: ItemCount,
}

impl ProjectListEntry {
    /// A copy of this entry.
    pub fn duplicate(&self) -> (r: ProjectListEntry)
        ensures
            r == *self,
    {
        ProjectListEntry {
            number: self.number,
            title: self.title.clone(),
            short_description: crate::model::project_item::copy_opt_string(&self.short_description),
            closed: self.closed,
            items: ItemCount { total_count: self.items.total_count },
        }
    }
}

/// How many items a project holds.
#[derive(Debug, Clone)]
pub struct ItemCount {
    pub total_count: u32,
}

// --- Project Metadata Response ---

/// Response to the project metadata query.
#[derive(Debug)]
pub struct MetadataResponse {
    pub data: MetadataData,
}

/// The owner found by the metadata query, if any.
#[derive(Debug)]
pub struct MetadataData {
    pub user: Option<MetadataOwner>,
}

/// An owner and the requested project, if it exists.
#[derive(Debug)]
pub struct MetadataOwner {
    pub project_v2: Option<MetadataProject>,
}

/// A project: its id, title and fields.
#[derive(Debug)]
pub struct MetadataProject {
    pub id: String,
    pub title: String,
    pub fields: FieldNodes,
}

/// The fields of a project.
#[derive(Debug)]
pub struct FieldNodes {
    pub nodes: Vec<FieldNode>,
}

/// Fields in the project. Non-single-select fields appear as empty objects `{}`
/// from the GraphQL fragment, so all fields are optional.
#[derive(Debug)]
pub struct FieldNode {
    pub id: Option<String>,
    pub name: Option<String>,
    pub options: Vec<FieldOption>,
}

/// One option of a single-select field.
#[derive(Debug)]
pub struct FieldOption {
    pub id: String,
    pub name: String,
}

// --- Project Items Response ---

/// Response to one page of the project items query.
#[derive(Debug)]
pub struct ItemsResponse {
    pub data: ItemsData,
}

/// The project node, if it was found.
#[derive(Debug)]
pub struct ItemsData {
    pub node: Option<ItemsProject>,
}

/// The items of the project.
#[derive(Debug)]
pub struct ItemsProject {
    pub items: ItemsConnection,
}

/// One page of items and where the next page starts.
#[derive(Debug)]
pub struct ItemsConnection {
    pub page_info: PageInfo,
    pub nodes: Vec<Option<ItemNode>>,
}

/// Whether another page follows, and its cursor.
#[derive(Debug)]
pub struct PageInfo {
    pub has_next_page: bool,
    pub end_cursor: Option<String>,
}

/// One project item as the API returns it.
#[derive(Debug)]
pub struct ItemNode {
    pub id: String,
    pub field_values: FieldValueNodes,
    pub content: Option<ItemContent>,
}

/// The field values of an item.
#[derive(Debug)]
pub struct FieldValueNodes {
    pub nodes: Vec<Option<FieldValueNode>>,
}

/// A single-select field value: the field it belongs to and the chosen option.
#[derive(Debug)]
pub struct FieldValueNode {
    pub field: Option<FieldRef>,
    pub name: Option<String>,
}

/// The field that a value belongs to.
#[derive(Debug)]
pub struct FieldRef {
    pub name: Option<String>,
}

/// What an item stands for: an issue or a pull request (drafts and other
/// kinds have no content).
#[derive(Debug)]
pub enum ItemContent {
    Issue {
        number: u64,
        title: String,
        url: String,
        created_at: Timestamp,
        updated_at: Timestamp,
        assignees: AssigneeNodes,
        labels: LabelNodes,
        repository: RepoRef,
    },
    PullRequest {
        number: u64,
        title: String,
        url: String,
        created_at: Timestamp,
        updated_at: Timestamp,
        assignees: AssigneeNodes,
        labels: LabelNodes,
        repository: RepoRef,
    },
}

/// The assignees of an item.
#[derive(Debug)]
pub struct AssigneeNodes {
    pub nodes: Vec<Option<AssigneeNode>>,
}

/// One assignee.
#[derive(Debug)]
pub struct AssigneeNode {
    pub login: String,
}

/// The labels of an item.
#[derive(Debug)]
pub struct LabelNodes {
    pub nodes: Vec<Option<LabelNode>>,
}

/// One label.
#[derive(Debug)]
pub struct LabelNode {
    pub name: String,
}

/// The repository of an item.
#[derive(Debug)]
pub struct RepoRef {
    pub name_with_owner: String,
}

// --- Conversion ---

/// `node` is a single-select field called `name` that has an id.
pub open spec fn is_named_field(node: FieldNode, name: Seq<char>) -> bool {
    &&& node.name matches Some(n) && n@ == name
    &&& node.id is Some
}

/// The columns made from the options of a field, in option order.
pub open spec fn option_columns(options: Seq<FieldOption>) -> Seq<(Seq<char>, Seq<char>)> {
    options.map_values(|o: FieldOption| (o.id@, o.name@))
}

/// The views of a list of columns.
pub open spec fn columns_view(columns: Seq<StatusColumn>) -> Seq<(Seq<char>, Seq<char>)> {
    columns.map_values(|c: StatusColumn| c@)
}

/// Viewing a list after a push is viewing the list, then pushing the view.
pub proof fn lemma_columns_view_push(s: Seq<StatusColumn>, x: StatusColumn)
    ensures
        columns_view(s.push(x)) == columns_view(s).push(x@),
{
    assert(columns_view(s.push(x)) =~= columns_view(s).push(x@));
}

impl MetadataProject {
    /// Extract status columns for the given status field name.
    pub fn status_columns(&self, status_field_name: &str) -> (r: Option<(String, Vec<StatusColumn>)>)
        ensures
            match r {
                None => forall|i: int|
                    0 <= i < self.fields.nodes@.len() ==> !is_named_field(
                        #[trigger] self.fields.nodes@[i],
                        status_field_name@,
                    ),
                Some((id, columns)) => exists|i: int|
                    0 <= i < self.fields.nodes@.len() && {
                        let node = #[trigger] self.fields.nodes@[i];
                        &&& is_named_field(node, status_field_name@)
                        &&& (forall|j: int|
                            0 <= j < i ==> !is_named_field(
                                #[trigger] self.fields.nodes@[j],
                                status_field_name@,
                            ))
                        &&& Some(id) == node.id
                        &&& columns_view(columns@) == option_columns(node.options@)
                    },
            },
    {
        let wanted = String::from_str(status_field_name);
        let mut i: usize = 0;
        while i < self.fields.nodes.len()
            invariant
                i <= self.fields.nodes@.len(),
                wanted@ == status_field_name@,
                forall|j: int|
                    0 <= j < i ==> !is_named_field(
                        #[trigger] self.fields.nodes@[j],
                        status_field_name@,
                    ),
            decreases self.fields.nodes@.len() - i,
        {
            let field = &self.fields.nodes[i];
            if let Some(name) = &field.name {
                if let Some(id) = &field.id {
                    if *name == wanted {
                        let mut columns: Vec<StatusColumn> = Vec::new();
                        let mut k: usize = 0;
                        while k < field.options.len()
                            invariant
                                k <= field.options@.len(),
                                columns_view(columns@) == option_columns(field.options@.take(k as int)),
                            decreases field.options@.len() - k,
                        {
                            let opt = &field.options[k];
                            let ghost before = columns@;
                            let col = StatusColumn { id: opt.id.clone(), name: opt.name.clone() };
                            assert(col@ == (opt.id@, opt.name@));
                            columns.push(col);
                            assert(field.options@.take(k + 1).drop_last() =~= field.options@.take(k as int));
                            assert(columns@ =~= before.push(col));
                            k = k + 1;
                            proof {
                                let a = columns_view(columns@);
                                let b = option_columns(field.options@.take(k as int));
                                let a0 = columns_view(before);
                                let b0 = option_columns(field.options@.take(k - 1));
                                assert(a0 == b0);
                                assert(b0.len() == k - 1);
                                assert(a0.len() == before.len());
                                assert(a.len() == columns@.len());
                                assert(b.len() == k);
                                assert(a.len() == b.len());
                                assert forall|j: int| 0 <= j < a.len() implies a[j] == b[j] by {
                                    if j < k - 1 {
                                        assert(columns@[j] == before[j]);
                                        assert(a[j] == a0[j]);
                                        assert(b[j] == b0[j]);
                                    } else {
                                        assert(field.options@.take(k as int)[j] == field.options@[j]);
                                    }
                                }
                                assert(a =~= b);
                            }
                        }
                        assert(field.options@.take(field.options@.len() as int) =~= field.options@);
                        assert(is_named_field(self.fields.nodes@[i as int], status_field_name@));
                        return Some((id.clone(), columns));
                    }
                }
            }
            i = i + 1;
        }
        None
    }
}

/// The status of an item: the option chosen in the first field value whose
/// field is called `field`, which may be none.
pub open spec fn status_of(values: Seq<Option<FieldValueNode>>, field: Seq<char>) -> Option<Seq<char>>
    decreases values.len(),
{
    if values.len() == 0 {
        None
    } else {
        match values[0] {
            Some(fv) => if is_value_of(fv, field) {
                opt_chars(fv.name)
            } else {
                status_of(values.drop_first(), field)
            },
            None => status_of(values.drop_first(), field),
        }
    }
}

/// `fv` is a value of the field called `field`.
pub open spec fn is_value_of(fv: FieldValueNode, field: Seq<char>) -> bool {
    fv.field matches Some(r) && opt_chars(r.name) == Some(field)
}

/// The logins of the assignees present in a list (absent entries skipped).
pub open spec fn present_logins(nodes: Seq<Option<AssigneeNode>>) -> Seq<Seq<char>>
    decreases nodes.len(),
{
    if nodes.len() == 0 {
        seq![]
    } else {
        let rest = present_logins(nodes.drop_last());
        match nodes.last() {
            Some(a) => rest.push(a.login@),
            None => rest,
        }
    }
}

/// The names of the labels present in a list (absent entries skipped).
pub open spec fn present_labels(nodes: Seq<Option<LabelNode>>) -> Seq<Seq<char>>
    decreases nodes.len(),
{
    if nodes.len() == 0 {
        seq![]
    } else {
        let rest = present_labels(nodes.drop_last());
        match nodes.last() {
            Some(l) => rest.push(l.name@),
            None => rest,
        }
    }
}

/// `/pull/`, which marks the address of a pull request.
pub open spec fn pull_marker() -> Seq<char> {
    seq!['/', 'p', 'u', 'l', 'l', '/']
}

/// The kind of an item, told by its address.
pub open spec fn kind_of_url(url: Seq<char>) -> ItemKind {
    if contains_run(url, pull_marker()) {
        ItemKind::PullRequest
    } else {
        ItemKind::Issue
    }
}

/// The item built from an item id, its status and the fields of its content.
pub open spec fn item_from_parts(
    id: Seq<char>,
    status: Option<Seq<char>>,
    number: u64,
    title: String,
    url: String,
    created_at: Timestamp,
    updated_at: Timestamp,
    assignees: AssigneeNodes,
    labels: LabelNodes,
    repository: RepoRef,
) -> ItemView {
    ItemView {
        id,
        kind: kind_of_url(url@),
        repo: repository.name_with_owner@,
        number,
        title: title@,
        url: url@,
        status,
        assignees: present_logins(assignees.nodes@),
        labels: present_labels(labels.nodes@),
        created_at,
        updated_at,
    }
}

/// The domain item that an item node stands for, when it has content.
pub open spec fn node_item(node: ItemNode, field: Seq<char>) -> Option<ItemView> {
    let status = status_of(node.field_values.nodes@, field);
    match node.content {
        None => None,
        Some(ItemContent::Issue {
            number,
            title,
            url,
            created_at,
            updated_at,
            assignees,
            labels,
            repository,
        }) => Some(
            item_from_parts(
                node.id@,
                status,
                number,
                title,
                url,
                created_at,
                updated_at,
                assignees,
                labels,
                repository,
            ),
        ),
        Some(ItemContent::PullRequest {
            number,
            title,
            url,
            created_at,
            updated_at,
            assignees,
            labels,
            repository,
        }) => Some(
            item_from_parts(
                node.id@,
                status,
                number,
                title,
                url,
                created_at,
                updated_at,
                assignees,
                labels,
                repository,
            ),
        ),
    }
}

/// The logins of the assignees present in `nodes`.
fn logins_of(nodes: &Vec<Option<AssigneeNode>>) -> (r: Vec<String>)
    ensures
        strings_view(r@) == present_logins(nodes@),
{
    let mut r: Vec<String> = Vec::new();
    let mut i: usize = 0;
    while i < nodes.len()
        invariant
            i <= nodes@.len(),
            strings_view(r@) == present_logins(nodes@.take(i as int)),
        decreases nodes@.len() - i,
    {
        let ghost before = r@;
        assert(nodes@.take(i + 1).drop_last() =~= nodes@.take(i as int));
        match &nodes[i] {
            Some(a) => {
                r.push(a.login.clone());
                assert(strings_view(r@) =~= strings_view(before).push(a.login@));
            },
            None => {},
        }
        i = i + 1;
    }
    assert(nodes@.take(nodes@.len() as int) =~= nodes@);
    r
}

/// The names of the labels present in `nodes`.
fn label_names_of(nodes: &Vec<Option<LabelNode>>) -> (r: Vec<String>)
    ensures
        strings_view(r@) == present_labels(nodes@),
{
    let mut r: Vec<String> = Vec::new();
    let mut i: usize = 0;
    while i < nodes.len()
        invariant
            i <= nodes@.len(),
            strings_view(r@) == present_labels(nodes@.take(i as int)),
        decreases nodes@.len() - i,
    {
        let ghost before = r@;
        assert(nodes@.take(i + 1).drop_last() =~= nodes@.take(i as int));
        match &nodes[i] {
            Some(l) => {
                r.push(l.name.clone());
                assert(strings_view(r@) =~= strings_view(before).push(l.name@));
            },
            None => {},
        }
        i = i + 1;
    }
    assert(nodes@.take(nodes@.len() as int) =~= nodes@);
    r
}

/// The kind of an item, told by its address.
fn kind_from_url(url: &String) -> (k: ItemKind)
    ensures
        k == kind_of_url(url@),
{
    proof {
        reveal_strlit("/pull/");
        assert("/pull/"@ =~= pull_marker());
    }
    let marker = chars_of("/pull/");
    let u = chars_of(url.as_str());
    if contains_chars(&u, &marker) {
        ItemKind::PullRequest
    } else {
        ItemKind::Issue
    }
}

impl ItemNode {
    /// Convert to domain ProjectItem, extracting the status value for the given field name.
    pub fn to_project_item(&self, status_field_name: &str) -> (r: Option<ProjectItem>)
        ensures
            match r {
                Some(item) => node_item(*self, status_field_name@) == Some(item@),
                None => node_item(*self, status_field_name@) is None,
            },
    {
        match &self.content {
            None => None,
            Some(content) => {
                let status = self.extract_status(status_field_name);
                match content {
                    ItemContent::Issue {
                        number,
                        title,
                        url,
                        created_at,
                        updated_at,
                        assignees,
                        labels,
                        repository,
                    }
                    | ItemContent::PullRequest {
                        number,
                        title,
                        url,
                        created_at,
                        updated_at,
                        assignees,
                        labels,
                        repository,
                    } => {
                        let kind = kind_from_url(url);
                        let item = ProjectItem {
                            id: self.id.clone(),
                            kind,
                            repo: repository.name_with_owner.clone(),
                            number: *number,
                            title: title.clone(),
                            url: url.clone(),
                            status,
                            assignees: logins_of(&assignees.nodes),
                            labels: label_names_of(&labels.nodes),
                            created_at: *created_at,
                            updated_at: *updated_at,
                        };
                        Some(item)
                    },
                }
            },
        }
    }

    /// The status value of this item for the given field name.
    pub fn extract_status(&self, status_field_name: &str) -> (r: Option<String>)
        ensures
            opt_chars(r) == status_of(self.field_values.nodes@, status_field_name@),
    {
        let wanted = String::from_str(status_field_name);
        let ghost values = self.field_values.nodes@;
        assert(values.skip(0) =~= values);
        let mut i: usize = 0;
        while i < self.field_values.nodes.len()
            invariant
                i <= values.len(),
                values == self.field_values.nodes@,
                wanted@ == status_field_name@,
                status_of(values, status_field_name@) == status_of(values.skip(i as int), status_field_name@),
            decreases values.len() - i,
        {
            let ghost rest = values.skip(i as int);
            assert(rest[0] == values[i as int]);
            assert(rest.drop_first() =~= values.skip(i + 1));
            if let Some(fv) = &self.field_values.nodes[i] {
                if let Some(field_ref) = &fv.field {
                    if let Some(name) = &field_ref.name {
                        if *name == wanted {
                            assert(is_value_of(*fv, status_field_name@));
                            return match &fv.name {
                                Some(n) => Some(n.clone()),
                                None => None,
                            };
                        }
                    }
                }
            }
            i = i + 1;
        }
        None
    }
}

// ---------------------------------------------------------------------------
// Laws
// ---------------------------------------------------------------------------

/// An item node with content becomes an item that keeps the node's id and
/// the content's number, title, address, repository and both instants: its
/// `created_at` is the content's creation time and its `updated_at` the
/// content's update time.
pub proof fn law_item_keeps_content_fields(node: ItemNode, field: Seq<char>)
    requires
        node.content is Some,
    ensures
        node_item(node, field) is Some,
        ({
            let v = node_item(node, field).unwrap();
            &&& v.id == node.id@
            &&& match node.content.unwrap() {
                ItemContent::Issue { number, title, url, created_at, updated_at, repository, .. } => {
                    &&& v.number == number
                    &&& v.title == title@
                    &&& v.url == url@
                    &&& v.repo == repository.name_with_owner@
                    &&& v.created_at == created_at
                    &&& v.updated_at == updated_at
                },
                ItemContent::PullRequest { number, title, url, created_at, updated_at, repository, .. } => {
                    &&& v.number == number
                    &&& v.title == title@
                    &&& v.url == url@
                    &&& v.repo == repository.name_with_owner@
                    &&& v.created_at == created_at
                    &&& v.updated_at == updated_at
                },
            }
        }),
{
}

/// An item node without content (a draft or another kind) yields no item.
pub proof fn law_node_without_content_yields_nothing(node: ItemNode, field: Seq<char>)
    requires
        node.content is None,
    ensures
        node_item(node, field) is None,
{
}

/// An address containing `/pull/` is a pull request's; any other is an
/// issue's.
pub proof fn law_kind_from_address(url: Seq<char>, i: int)
    ensures
        (0 <= i && i + 6 <= url.len() && url.subrange(i, i + 6) == seq!['/', 'p', 'u', 'l', 'l', '/'])
            ==> kind_of_url(url) == ItemKind::PullRequest,
        (forall|k: int| 0 <= k && k + 6 <= url.len() ==> #[trigger] url.subrange(k, k + 6) != seq!['/', 'p', 'u', 'l', 'l', '/'])
            ==> kind_of_url(url) == ItemKind::Issue,
{
    if 0 <= i && i + 6 <= url.len() && url.subrange(i, i + 6) == seq!['/', 'p', 'u', 'l', 'l', '/'] {
        assert(url.subrange(i, i + pull_marker().len()) == pull_marker());
    }
}

/// The status is the option of the first value of the status field: when
/// the value at `i` belongs to the field and no earlier one does, the status
/// is that value's option; when no value belongs to it, there is none.
pub proof fn law_status_is_first_value_of_field(values: Seq<Option<FieldValueNode>>, field: Seq<char>, i: int)
    ensures
        (0 <= i < values.len() && values[i] is Some && is_value_of(values[i].unwrap(), field)
            && (forall|j: int| 0 <= j < i ==> !(#[trigger] values[j] is Some && is_value_of(values[j].unwrap(), field))))
            ==> status_of(values, field) == opt_chars(values[i].unwrap().name),
        (forall|j: int| 0 <= j < values.len() ==> !(#[trigger] values[j] is Some && is_value_of(values[j].unwrap(), field)))
            ==> status_of(values, field) is None,
    decreases values.len(),
{
    if values.len() > 0 {
        let rest = values.drop_first();
        law_status_is_first_value_of_field(rest, field, i - 1);
        if 0 <= i < values.len() && values[i] is Some && is_value_of(values[i].unwrap(), field)
            && (forall|j: int| 0 <= j < i ==> !(#[trigger] values[j] is Some && is_value_of(values[j].unwrap(), field))) {
            if i > 0 {
                assert(!(values[0] is Some && is_value_of(values[0].unwrap(), field)));
                assert(rest[i - 1] == values[i]);
                assert forall|j: int| 0 <= j < i - 1 implies !(#[trigger] rest[j] is Some && is_value_of(rest[j].unwrap(), field)) by {
                    assert(rest[j] == values[j + 1]);
                }
            }
        }
        if forall|j: int| 0 <= j < values.len() ==> !(#[trigger] values[j] is Some && is_value_of(values[j].unwrap(), field)) {
            assert(!(values[0] is Some && is_value_of(values[0].unwrap(), field)));
            assert forall|j: int| 0 <= j < rest.len() implies !(#[trigger] rest[j] is Some && is_value_of(rest[j].unwrap(), field)) by {
                assert(rest[j] == values[j + 1]);
            }
        }
    }
}

/// The logins of a list of assignees, absent entries skipped: an absent
/// entry adds nothing and a present one adds its login at the end.
pub proof fn law_present_logins_step(nodes: Seq<Option<AssigneeNode>>, a: AssigneeNode)
    ensures
        present_logins(nodes.push(None)) == present_logins(nodes),
        present_logins(nodes.push(Some(a))) == present_logins(nodes).push(a.login@),
        present_logins(Seq::<Option<AssigneeNode>>::empty()) == Seq::<Seq<char>>::empty(),
{
    assert(nodes.push(None).drop_last() =~= nodes);
    assert(nodes.push(Some(a)).drop_last() =~= nodes);
}

/// The names of a list of labels, absent entries skipped: an absent entry
/// adds nothing and a present one adds its name at the end.
pub proof fn law_present_labels_step(nodes: Seq<Option<LabelNode>>, l: LabelNode)
    ensures
        present_labels(nodes.push(None)) == present_labels(nodes),
        present_labels(nodes.push(Some(l))) == present_labels(nodes).push(l.name@),
        present_labels(Seq::<Option<LabelNode>>::empty()) == Seq::<Seq<char>>::empty(),
{
    assert(nodes.push(None).drop_last() =~= nodes);
    assert(nodes.push(Some(l)).drop_last() =~= nodes);
}

} // verus!
