use flowbit::api::client::{
    FetchError, ItemsPager, MetadataStep, OwnerKind, ProjectListStep, custom_base_uri,
    is_large_project, metadata_query, next_metadata_step, next_project_list_step, parse_metadata,
    project_list_query, sort_by_recency,
};
use flowbit::api::queries::{
    PROJECT_ITEMS, PROJECT_LIST, PROJECT_LIST_ORG, PROJECT_METADATA, PROJECT_METADATA_ORG,
};
use flowbit::api::types::{
    AssigneeNode, AssigneeNodes, FieldNode, FieldNodes, FieldOption, FieldRef, FieldValueNode,
    FieldValueNodes, ItemContent, ItemNode, ItemsConnection, ItemsData, ItemsProject,
    ItemsResponse, LabelNode, LabelNodes, MetadataData, MetadataOwner, MetadataProject,
    MetadataResponse, PageInfo, ProjectListConnection, ProjectListData, ProjectListEntry,
    ProjectListOwner, ProjectListResponse, ItemCount, RepoRef,
};
use flowbit::model::project_item::{ItemKind, ProjectItem, Timestamp};

fn field(id: Option<&str>, name: Option<&str>, options: &[(&str, &str)]) -> FieldNode {
    FieldNode {
        id: id.map(|s| s.to_string()),
        name: name.map(|s| s.to_string()),
        options: options
            .iter()
            .map(|(i, n)| FieldOption { id: i.to_string(), name: n.to_string() })
            .collect(),
    }
}

fn project(fields: Vec<FieldNode>) -> MetadataProject {
    MetadataProject { id: "PVT_1".to_string(), title: "Roadmap".to_string(), fields: FieldNodes { nodes: fields } }
}

fn status_value(field_name: Option<&str>, value: Option<&str>) -> Option<FieldValueNode> {
    Some(FieldValueNode {
        field: Some(FieldRef { name: field_name.map(|s| s.to_string()) }),
        name: value.map(|s| s.to_string()),
    })
}

fn node(id: &str, number: u64, url: &str, values: Vec<Option<FieldValueNode>>, updated: i64) -> ItemNode {
    ItemNode {
        id: id.to_string(),
        field_values: FieldValueNodes { nodes: values },
        content: Some(ItemContent::Issue {
            number,
            title: format!("Item {}", number),
            url: url.to_string(),
            created_at: Timestamp { secs: 100, nanos: 0 },
            updated_at: Timestamp { secs: updated, nanos: 0 },
            assignees: AssigneeNodes {
                nodes: vec![Some(AssigneeNode { login: "alice".to_string() }), None, Some(AssigneeNode { login: "bob".to_string() })],
            },
            labels: LabelNodes { nodes: vec![None, Some(LabelNode { name: "bug".to_string() })] },
            repository: RepoRef { name_with_owner: "acme/widgets".to_string() },
        }),
    }
}

fn draft(id: &str) -> ItemNode {
    ItemNode { id: id.to_string(), field_values: FieldValueNodes { nodes: vec![] }, content: None }
}

fn page(nodes: Vec<Option<ItemNode>>, next: Option<&str>) -> ItemsResponse {
    ItemsResponse {
        data: ItemsData {
            node: Some(ItemsProject {
                items: ItemsConnection {
                    page_info: PageInfo { has_next_page: next.is_some(), end_cursor: next.map(|s| s.to_string()) },
                    nodes,
                },
            }),
        },
    }
}

fn simple_item(number: u64, secs: i64, nanos: u32) -> ProjectItem {
    ProjectItem {
        id: format!("id{}", number),
        kind: ItemKind::Issue,
        repo: "acme/widgets".to_string(),
        number,
        title: String::new(),
        url: String::new(),
        status: None,
        assignees: vec![],
        labels: vec![],
        created_at: Timestamp { secs: 0, nanos: 0 },
        updated_at: Timestamp { secs, nanos },
    }
}

#[test]
fn status_columns_keep_option_order() {
    let p = project(vec![
        field(None, None, &[]),
        field(Some("F1"), Some("Priority"), &[("p1", "High")]),
        field(Some("F2"), Some("Status"), &[("o1", "Todo"), ("o2", "Doing"), ("o3", "Done")]),
    ]);
    let (id, cols) = p.status_columns("Status").unwrap();
    assert_eq!(id, "F2");
    let names: Vec<&str> = cols.iter().map(|c| c.name.as_str()).collect();
    assert_eq!(names, vec!["Todo", "Doing", "Done"]);
    assert_eq!(cols[1].id, "o2");
}

#[test]
fn status_columns_skip_fields_without_id() {
    let p = project(vec![
        field(None, Some("Status"), &[("x", "Ghost")]),
        field(Some("F9"), Some("Status"), &[("o1", "Todo")]),
    ]);
    let (id, cols) = p.status_columns("Status").unwrap();
    assert_eq!(id, "F9");
    assert_eq!(cols.len(), 1);
    assert!(p.status_columns("status").is_none());
}

#[test]
fn item_conversion_reads_content() {
    let n = node(
        "PVTI_7",
        7,
        "https://github.com/acme/widgets/pull/7",
        vec![None, status_value(Some("Priority"), Some("High")), status_value(Some("Status"), Some("Doing"))],
        500,
    );
    let item = n.to_project_item("Status").unwrap();
    assert_eq!(item.id, "PVTI_7");
    assert_eq!(item.kind, ItemKind::PullRequest);
    assert_eq!(item.repo, "acme/widgets");
    assert_eq!(item.number, 7);
    assert_eq!(item.title, "Item 7");
    assert_eq!(item.status.as_deref(), Some("Doing"));
    assert_eq!(item.assignees, vec!["alice".to_string(), "bob".to_string()]);
    assert_eq!(item.labels, vec!["bug".to_string()]);
    assert_eq!(item.updated_at, Timestamp { secs: 500, nanos: 0 });
}

#[test]
fn item_kind_comes_from_address() {
    let n = node("a", 1, "https://github.com/acme/widgets/issues/1", vec![], 1);
    assert_eq!(n.to_project_item("Status").unwrap().kind, ItemKind::Issue);
}

#[test]
fn item_without_status_has_none() {
    let n = node("a", 1, "u", vec![status_value(Some("Priority"), Some("High"))], 1);
    assert_eq!(n.to_project_item("Status").unwrap().status, None);
    let first_wins = node("b", 2, "u", vec![status_value(Some("Status"), None), status_value(Some("Status"), Some("Done"))], 1);
    assert_eq!(first_wins.extract_status("Status"), None);
}

#[test]
fn draft_items_are_skipped() {
    assert!(draft("d").to_project_item("Status").is_none());
}

fn metadata(user: Option<MetadataOwner>) -> MetadataResponse {
    MetadataResponse { data: MetadataData { user } }
}

#[test]
fn metadata_is_read() {
    let resp = metadata(Some(MetadataOwner {
        project_v2: Some(project(vec![field(Some("F2"), Some("Status"), &[("o1", "Todo")])])),
    }));
    let m = parse_metadata(resp, "Status").unwrap();
    assert_eq!(m.project_id, "PVT_1");
    assert_eq!(m.project_title, "Roadmap");
    assert_eq!(m.status_field_id, "F2");
    assert_eq!(m.status_columns.len(), 1);
}

#[test]
fn metadata_errors() {
    assert!(matches!(parse_metadata(metadata(None), "Status"), Err(FetchError::OwnerNotFound)));
    assert!(matches!(
        parse_metadata(metadata(Some(MetadataOwner { project_v2: None })), "Status"),
        Err(FetchError::ProjectNotFound)
    ));
    let resp = metadata(Some(MetadataOwner {
        project_v2: Some(project(vec![
            field(Some("F1"), Some("Priority"), &[]),
            field(None, None, &[]),
            field(Some("F3"), Some("Size"), &[]),
        ])),
    }));
    match parse_metadata(resp, "Status") {
        Err(FetchError::StatusFieldNotFound { field, available }) => {
            assert_eq!(field, "Status");
            assert_eq!(available, "Priority, Size");
        }
        other => panic!("unexpected: {:?}", other),
    }
}

#[test]
fn metadata_falls_back_to_organization() {
    assert_eq!(metadata_query(OwnerKind::User), PROJECT_METADATA);
    assert_eq!(metadata_query(OwnerKind::Organization), PROJECT_METADATA_ORG);
    assert!(PROJECT_METADATA_ORG.contains("organization(login: $owner)"));
    assert!(PROJECT_ITEMS.contains("items(first: 100, after: $cursor)"));
    assert!(matches!(next_metadata_step(OwnerKind::User, None, "Status"), MetadataStep::TryOrganization));
    assert!(matches!(
        next_metadata_step(OwnerKind::Organization, None, "Status"),
        MetadataStep::Done(Err(FetchError::MetadataRequestFailed))
    ));
    assert!(matches!(
        next_metadata_step(OwnerKind::User, Some(metadata(None)), "Status"),
        MetadataStep::Done(Err(FetchError::OwnerNotFound))
    ));
}

#[test]
fn pager_gathers_pages_in_order() {
    let mut pager = ItemsPager::new();
    assert_eq!(pager.cursor(), None);
    assert!(!pager.is_finished());
    let first = page(
        vec![Some(node("a", 1, "u", vec![], 10)), None, Some(draft("d")), Some(node("b", 2, "u", vec![], 30))],
        Some("CUR1"),
    );
    assert!(pager.accept_page(first, "Status").is_ok());
    assert_eq!(pager.cursor().as_deref(), Some("CUR1"));
    assert!(!pager.is_finished());
    let second = page(vec![Some(node("c", 3, "u", vec![], 20))], None);
    assert!(pager.accept_page(second, "Status").is_ok());
    assert!(pager.is_finished());
    let items = pager.into_items();
    let numbers: Vec<u64> = items.iter().map(|i| i.number).collect();
    assert_eq!(numbers, vec![2, 3, 1]);
}

#[test]
fn pager_refuses_page_without_project() {
    let mut pager = ItemsPager::new();
    let missing = ItemsResponse { data: ItemsData { node: None } };
    assert!(matches!(pager.accept_page(missing, "Status"), Err(FetchError::ProjectNodeMissing)));
    assert!(!pager.is_finished());
    assert!(pager.into_items().is_empty());
}

#[test]
fn sort_newest_first_then_number() {
    let items = vec![
        simple_item(5, 100, 0),
        simple_item(2, 300, 0),
        simple_item(9, 100, 0),
        simple_item(1, 100, 0),
        simple_item(4, 300, 5),
    ];
    let sorted = sort_by_recency(items);
    let numbers: Vec<u64> = sorted.iter().map(|i| i.number).collect();
    assert_eq!(numbers, vec![4, 2, 1, 5, 9]);
}

#[test]
fn sort_is_stable_for_equal_rank() {
    let mut a = simple_item(3, 100, 0);
    a.id = "first".to_string();
    let mut b = simple_item(3, 100, 0);
    b.id = "second".to_string();
    let sorted = sort_by_recency(vec![a, simple_item(1, 50, 0), b]);
    let ids: Vec<&str> = sorted.iter().map(|i| i.id.as_str()).collect();
    assert_eq!(ids, vec!["first", "second", "id1"]);
}

#[test]
fn base_uri_only_when_not_default() {
    assert_eq!(custom_base_uri("https://api.github.com"), None);
    assert_eq!(custom_base_uri("https://ghe.example.com/api").as_deref(), Some("https://ghe.example.com/api"));
}

#[test]
fn large_project_threshold() {
    assert!(!is_large_project(500));
    assert!(is_large_project(501));
}

fn project_list(user: Option<Vec<u32>>) -> ProjectListResponse {
    ProjectListResponse {
        data: ProjectListData {
            user: user.map(|numbers| ProjectListOwner {
                projects_v2: ProjectListConnection {
                    nodes: numbers
                        .into_iter()
                        .map(|n| ProjectListEntry {
                            number: n,
                            title: format!("P{}", n),
                            short_description: None,
                            closed: false,
                            items: ItemCount { total_count: 0 },
                        })
                        .collect(),
                },
            }),
        },
    }
}

#[test]
fn project_list_falls_back_to_organization() {
    assert_eq!(project_list_query(OwnerKind::User), PROJECT_LIST);
    assert_eq!(project_list_query(OwnerKind::Organization), PROJECT_LIST_ORG);
    match next_project_list_step(OwnerKind::User, Some(project_list(Some(vec![3, 5])))) {
        ProjectListStep::Done(Ok(v)) => assert_eq!(v.iter().map(|p| p.number).collect::<Vec<_>>(), vec![3, 5]),
        other => panic!("unexpected: {:?}", other),
    }
    assert!(matches!(next_project_list_step(OwnerKind::User, None), ProjectListStep::TryOrganization));
    assert!(matches!(
        next_project_list_step(OwnerKind::User, Some(project_list(None))),
        ProjectListStep::TryOrganization
    ));
    assert!(matches!(
        next_project_list_step(OwnerKind::Organization, Some(project_list(None))),
        ProjectListStep::Done(Err(FetchError::OwnerNotFound))
    ));
    assert!(matches!(
        next_project_list_step(OwnerKind::Organization, None),
        ProjectListStep::Done(Err(FetchError::ProjectListRequestFailed))
    ));
}
