//! Tests for the activity-map query and response types.

use extrahop::activitymap::query::{
    EdgeAnnotation, Protocol, Query, Relationship, Role, Source, Step, Walk, WalkOrigin,
};
use extrahop::activitymap::rsp::{
    Appearance, Edge, EdgeAnnotations, NodeIndex, ProtocolStack, Response,
};
use extrahop::json::to_text;
use extrahop::Oid;

#[test]
fn it_works() {
    let request = Query {
        from: 0i64.into(),
        walks: vec![Walk {
            origins: vec![Source::device(Oid::new(14))].into(),
            steps: vec![Step {
                relationships: vec![Relationship::new(Protocol::from("HTTP"), Role::Server)],
                ..Step::default()
            }],
        }],
        edge_annotations: vec![EdgeAnnotation::Protocols],
        ..Query::default()
    };

    println!("{}", request.to_json_string());
}

#[test]
fn query_source_list_serialize_all_devices() {
    assert_eq!(
        r#"[{"object_type":"all_devices"}]"#,
        to_text(&WalkOrigin::All.to_json()).as_str()
    );
}

#[test]
fn protocol_fmt_http() {
    assert_eq!(
        "HTTP",
        ProtocolStack::from(vec!["IPv4", "TCP", "HTTP"]).to_string().as_str()
    );
    assert_eq!(
        "HTTP",
        ProtocolStack::from(vec!["IPv6", "TCP", "HTTP"]).to_string().as_str()
    );
}

#[test]
fn protocol_fmt_unknowns() {
    assert_eq!(
        "TCP",
        ProtocolStack::from(vec!["IPv4", "TCP", "OTHER"]).to_string().as_str()
    );
    assert_eq!("OTHER", ProtocolStack::from(vec!["OTHER"]).to_string().as_str());
}

/// Appearances are sorted by walk, then by step.
#[test]
fn order_appearances() {
    let mut items = vec![
        Appearance::new(1, 2),
        Appearance::new(0, 2),
        Appearance::new(1, 0),
        Appearance::new(0, 1),
    ];

    items.sort();

    assert_eq!(
        items,
        vec![
            Appearance::new(0, 1),
            Appearance::new(0, 2),
            Appearance::new(1, 0),
            Appearance::new(1, 2),
        ]
    );
}

#[test]
fn source_serializes_with_type_and_id() {
    let s = Source::device_group(Oid::new(7));
    assert_eq!(
        r#"{"object_type":"device_group","object_id":7}"#,
        to_text(&s.to_json()).as_str()
    );
}

#[test]
fn relationship_omits_defaults() {
    let any = Relationship::default();
    assert_eq!("{}", to_text(&any.to_json()).as_str());

    let server = Relationship::new(Protocol::from("HTTP"), Role::Server);
    assert_eq!(
        r#"{"role":"server","protocol":"HTTP"}"#,
        to_text(&server.to_json()).as_str()
    );

    let role_only = Relationship::from(Role::Client);
    assert_eq!(r#"{"role":"client"}"#, to_text(&role_only.to_json()).as_str());
}

#[test]
fn query_round_trip_with_empty_collections() {
    let query = Query {
        from: (-30000i64).into(),
        until: 0i64.into(),
        walks: vec![Walk {
            origins: vec![Source::device(Oid::new(15))].into(),
            steps: vec![Step::default()],
        }],
        ..Query::default()
    };

    let text = query.to_json_string();
    assert!(!text.contains("edge_annotations"));
    assert!(!text.contains("relationships"));
    assert!(!text.contains("[]"));

    let back = Query::from_json_text(&text).expect("round trip should parse");
    assert_eq!(back, query);
}

#[test]
fn query_round_trip_full() {
    let query = Query {
        from: "-30m".into(),
        until: 12345u64.into(),
        walks: vec![
            Walk {
                origins: WalkOrigin::All,
                steps: vec![Step {
                    relationships: vec![
                        Relationship::new(Protocol::from("HTTP"), Role::Server),
                        Relationship::from(Role::Client),
                    ],
                    peer_in: vec![Source::device_group(Oid::new(4))],
                    peer_not_in: vec![Source::new(
                        extrahop::activitymap::query::ObjectType::ActivityGroup,
                        Oid::new(9),
                    )],
                }],
            },
            Walk {
                origins: vec![Source::device(Oid::new(1)), Source::device(Oid::new(2))].into(),
                steps: vec![],
            },
        ],
        weighting: extrahop::activitymap::query::Weighting::Connections,
        edge_annotations: vec![EdgeAnnotation::Appearances, EdgeAnnotation::Protocols],
    };

    let text = query.to_json_string();
    let back = Query::from_json_text(&text).expect("round trip should parse");
    assert_eq!(back, query);
}

#[test]
fn end_to_end_query_text_and_node_index() {
    let query = Query {
        walks: vec![Walk {
            origins: WalkOrigin::All,
            steps: vec![Step::default()],
        }],
        edge_annotations: vec![EdgeAnnotation::Protocols],
        ..Query::default()
    };

    assert_eq!(
        r#"{"from":0,"until":0,"walks":[{"origins":[{"object_type":"all_devices"}],"steps":[{}]}],"edge_annotations":["protocols"]}"#,
        query.to_json_string().as_str()
    );

    let response = Response {
        edges: vec![
            Edge {
                from: Oid::new(1),
                to: Oid::new(2),
                weight: 10,
                annotations: EdgeAnnotations::default(),
            },
            Edge {
                from: Oid::new(2),
                to: Oid::new(3),
                weight: 20,
                annotations: EdgeAnnotations::default(),
            },
        ],
        ..Response::default()
    };

    assert_eq!(3, response.nodes().len());

    let index = NodeIndex::build(&response);
    assert_eq!(vec![0usize, 1usize], index.lookup(Oid::new(2)));
    assert_eq!(vec![0usize], index.lookup(Oid::new(1)));
    assert_eq!(vec![1usize], index.lookup(Oid::new(3)));
    assert!(index.lookup(Oid::new(9)).is_empty());
}

#[test]
fn is_complete_iff_no_warnings() {
    let empty = Response::default();
    assert!(empty.is_complete());

    let with_edges = Response {
        edges: vec![Edge {
            from: Oid::new(1),
            to: Oid::new(2),
            weight: 1,
            annotations: EdgeAnnotations::default(),
        }],
        ..Response::default()
    };
    assert!(with_edges.is_complete());

    let warned = Response {
        warnings: vec![extrahop::activitymap::rsp::Error::new(
            "topology truncated".to_string(),
            "truncated".to_string(),
        )],
        ..Response::default()
    };
    assert!(!warned.is_complete());
}

#[test]
fn response_parses_from_wire_text() {
    let text = r#"{
        "from": 100,
        "until": 200,
        "warnings": [{"message": "partial data", "type": "truncated"}],
        "edges": [
            {
                "from": 1,
                "to": 2,
                "weight": 42,
                "annotations": {
                    "appearances": [{"walk": 0, "step": 1}],
                    "protocols": [{"weight": 42, "protocol": ["IPv4", "TCP", "HTTP"]}]
                }
            },
            {"from": 2, "to": 3, "weight": 7}
        ]
    }"#;

    let rsp = Response::from_json_text(text).expect("well-formed response should parse");
    assert_eq!(100, rsp.from);
    assert_eq!(200, rsp.until);
    assert_eq!(1, rsp.warnings.len());
    assert_eq!("partial data", rsp.warnings[0].message);
    assert_eq!("truncated", rsp.warnings[0].error_type);
    assert!(!rsp.is_complete());
    assert_eq!(2, rsp.edges.len());
    assert_eq!(42, rsp.edges[0].weight);
    let apps = rsp.edges[0].annotations.appearances.as_ref().unwrap();
    assert_eq!(vec![Appearance::new(0, 1)], *apps);
    let protos = rsp.edges[0].annotations.protocols.as_ref().unwrap();
    assert_eq!(1, protos.len());
    assert_eq!("HTTP", protos[0].protocol.to_string().as_str());
    assert!(rsp.edges[1].annotations.appearances.is_none());
    assert!(rsp.edges[1].annotations.protocols.is_none());

    assert!(Response::from_json_text("not json at all").is_none());
}

#[test]
fn query_index_finds_step() {
    let step = Step {
        relationships: vec![Relationship::new(Protocol::from("DNS"), Role::Any)],
        ..Step::default()
    };
    let query = Query {
        walks: vec![
            Walk { origins: WalkOrigin::All, steps: vec![Step::default()] },
            Walk { origins: WalkOrigin::All, steps: vec![Step::default(), step.clone()] },
        ],
        ..Query::default()
    };

    let found = query.index(Appearance::new(1, 1));
    assert_eq!(*found, step);
}

#[test]
fn query_from_single_walk() {
    let walk = Walk {
        origins: vec![Source::device(Oid::new(15))].into(),
        steps: vec![Step::default()],
    };
    let query = Query::from(walk.clone());
    assert_eq!(vec![walk], query.walks);
    assert_eq!(
        Query {
            walks: query.walks.clone(),
            ..Query::default()
        },
        query
    );
}

#[test]
fn default_query_serializes_minimal() {
    assert_eq!(
        r#"{"from":0,"until":0,"walks":[]}"#,
        Query::default().to_json_string().as_str()
    );
    let back = Query::from_json_text(r#"{"from":0,"until":0,"walks":[]}"#).unwrap();
    assert_eq!(back, Query::default());
    // Every field is optional on the way back in.
    assert_eq!(Query::from_json_text("{}").unwrap(), Query::default());
}

#[test]
fn malformed_documents_are_rejected() {
    assert!(Query::from_json_text(r#"{"walks": 5}"#).is_none());
    assert!(Query::from_json_text(r#"{"from": []}"#).is_none());
    assert!(Query::from_json_text("[]").is_none());
    // An appearance index must fit sixteen bits.
    let oversized = r#"{"edges":[{"from":1,"to":2,"weight":1,
        "annotations":{"appearances":[{"walk":70000,"step":0}]}}]}"#;
    assert!(Response::from_json_text(oversized).is_none());
    let fitting = r#"{"edges":[{"from":1,"to":2,"weight":1,
        "annotations":{"appearances":[{"walk":65535,"step":0}]}}]}"#;
    assert!(Response::from_json_text(fitting).is_some());
}

#[test]
fn string_escapes_render_and_parse() {
    let query = Query {
        from: "a\"b\\c".into(),
        ..Query::default()
    };
    let text = query.to_json_string();
    assert!(text.contains(r#""a\"b\\c""#));
    let back = Query::from_json_text(&text).expect("escaped text should parse");
    assert_eq!(back, query);
}
