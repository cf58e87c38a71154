use dystopia::attributes::{
    ApiArgument, ApiArgumentValue, ApiAttribute, ApiAttributeError, AttrToken, AttributeError, HttpApiAttribute,
    NatsApiAttribute,
};
use dystopia::game_object::GameObjectType;
use dystopia::generator::Generator;
use dystopia::openapi::{parameter_description, parameter_shape, ParameterLocation, ParameterShape, SchemaType};
use dystopia::nats::{reply_for, rpc_outcome, NatsError, ShutdownState};
use dystopia::service::HttpMethod;
use dystopia::setup::{game_object_type_from_feature, object_type_id, ArenaFeatureKind, NavmeshPathingType};

fn ident(s: &str) -> AttrToken {
    AttrToken::Ident(s.to_string())
}

fn text(s: &str) -> AttrToken {
    AttrToken::Str(s.to_string())
}

fn assigned(name: &str, ty: &str) -> ApiArgument {
    ApiArgument { name: name.to_string(), value: ApiArgumentValue::Assigned(ty.to_string()) }
}

fn group(name: &str, tokens: Vec<AttrToken>) -> ApiArgument {
    ApiArgument { name: name.to_string(), value: ApiArgumentValue::Group(tokens) }
}

fn http_tokens() -> Vec<AttrToken> {
    vec![
        ident("path"),
        AttrToken::Punct('='),
        text("/games"),
        AttrToken::Punct(','),
        ident("method"),
        AttrToken::Punct('='),
        text("PoSt"),
    ]
}

#[test]
fn http_declaration_reads_path_and_method() {
    let parsed = HttpApiAttribute::parse(&http_tokens()).unwrap();
    assert_eq!(parsed.path, Some("/games".to_string()));
    assert_eq!(parsed.method, Some(HttpMethod::Post));
}

#[test]
fn empty_http_declaration_has_nothing() {
    let parsed = HttpApiAttribute::parse(&vec![]).unwrap();
    assert_eq!(parsed.path, None);
    assert_eq!(parsed.method, None);
}

#[test]
fn later_http_values_replace_earlier_ones() {
    let tokens = vec![
        ident("path"),
        AttrToken::Punct('='),
        text("/a"),
        ident("path"),
        AttrToken::Punct('='),
        text("/b"),
    ];
    assert_eq!(HttpApiAttribute::parse(&tokens).unwrap().path, Some("/b".to_string()));
}

#[test]
fn http_declaration_errors() {
    let err = |tokens: Vec<AttrToken>| HttpApiAttribute::parse(&tokens).err();
    assert_eq!(err(vec![AttrToken::Punct(',')]), Some(AttributeError::ExpectedIdentifier));
    assert_eq!(err(vec![ident("route")]), Some(AttributeError::UnexpectedAttribute));
    assert_eq!(err(vec![ident("path"), text("/a")]), Some(AttributeError::ExpectedEquals));
    assert_eq!(err(vec![ident("path"), AttrToken::Punct('=')]), Some(AttributeError::ExpectedLiteral));
    assert_eq!(
        err(vec![ident("path"), AttrToken::Punct('='), AttrToken::OtherLiteral("3".to_string())]),
        Some(AttributeError::ExpectedPathString)
    );
    assert_eq!(
        err(vec![ident("method"), AttrToken::Punct('='), text("fetch")]),
        Some(AttributeError::ExpectedMethodString)
    );
}

#[test]
fn nats_declaration_reads_topic() {
    let tokens = vec![ident("topic"), AttrToken::Punct('='), text("world.generate"), AttrToken::Punct(',')];
    assert_eq!(NatsApiAttribute::parse(&tokens).unwrap().topic, Some("world.generate".to_string()));
    assert_eq!(
        NatsApiAttribute::parse(&vec![ident("topic"), AttrToken::Punct('='), ident("x")]).err(),
        Some(AttributeError::ExpectedLiteral)
    );
    assert_eq!(
        NatsApiAttribute::parse(&vec![ident("topic"), AttrToken::Punct('='), AttrToken::OtherLiteral("1".to_string())])
            .err(),
        Some(AttributeError::ExpectedTopicString)
    );
}

fn full_declaration() -> Vec<ApiArgument> {
    vec![
        assigned("request", "GenerateRequest"),
        assigned("response", "GenerateResponse"),
        assigned("error", "ServiceError"),
        assigned("app_state", "AppState"),
        group("http", http_tokens()),
    ]
}

#[test]
fn endpoint_declaration_reads_all_parts() {
    let parsed = ApiAttribute::parse(&full_declaration()).unwrap();
    assert_eq!(parsed.request_type, Some("GenerateRequest".to_string()));
    assert_eq!(parsed.response_type, Some("GenerateResponse".to_string()));
    assert_eq!(parsed.error_type, Some("ServiceError".to_string()));
    assert_eq!(parsed.app_state_type, Some("AppState".to_string()));
    assert_eq!(parsed.http_options.unwrap().method, Some(HttpMethod::Post));
    assert!(parsed.nats_options.is_none());
}

#[test]
fn endpoint_declaration_reports_what_is_missing() {
    let mut args = full_declaration();
    args.remove(0);
    assert_eq!(ApiAttribute::parse(&args).err(), Some(ApiAttributeError::MissingRequest));

    let mut args = full_declaration();
    args.remove(1);
    assert_eq!(ApiAttribute::parse(&args).err(), Some(ApiAttributeError::MissingResponse));

    let mut args = full_declaration();
    args.remove(2);
    assert_eq!(ApiAttribute::parse(&args).err(), Some(ApiAttributeError::MissingError));

    let mut args = full_declaration();
    args.remove(3);
    assert_eq!(ApiAttribute::parse(&args).err(), Some(ApiAttributeError::MissingAppState));

    let mut args = full_declaration();
    args.remove(4);
    assert_eq!(ApiAttribute::parse(&args).err(), Some(ApiAttributeError::MissingTransport));

    let mut args = full_declaration();
    args[4] = group("nats", vec![ident("topic"), AttrToken::Punct('='), text("t")]);
    assert!(ApiAttribute::parse(&args).is_ok());
}

#[test]
fn endpoint_declaration_refuses_bad_arguments() {
    let mut args = full_declaration();
    args.push(assigned("timeout", "u32"));
    assert_eq!(
        ApiAttribute::parse(&args).err(),
        Some(ApiAttributeError::Argument(AttributeError::UnexpectedAttribute))
    );

    let mut args = full_declaration();
    args[4] = group("http", vec![ident("verb")]);
    assert_eq!(
        ApiAttribute::parse(&args).err(),
        Some(ApiAttributeError::Argument(AttributeError::UnexpectedAttribute))
    );

    let mut args = full_declaration();
    args[0] = group("request", vec![]);
    assert_eq!(ApiAttribute::parse(&args).err(), Some(ApiAttributeError::Argument(AttributeError::ExpectedEquals)));
}

#[test]
fn shutdown_drains_until_a_drain_is_done() {
    let mut state = ShutdownState::new();
    assert!(!state.poll());
    assert!(!state.handler_done());
    state.signal();
    assert!(state.handler_done());
    assert!(state.poll());
    // Until a handler records its drain, every handler that looks drains.
    assert!(state.poll());
    state.drain_done();
    assert!(!state.poll());
    assert_eq!(state, ShutdownState { should_shut_down: true, has_begun_shutdown: true });
}

#[test]
fn request_outcomes() {
    assert_eq!(rpc_outcome(false, true, Some(vec![1])), Err(NatsError::ReplySubjectSubscribeError));
    assert_eq!(rpc_outcome(true, false, Some(vec![1])), Err(NatsError::PublishError));
    assert_eq!(rpc_outcome(true, true, None), Err(NatsError::PublishTimeout));
    assert_eq!(rpc_outcome(true, true, Some(vec![1, 2])), Ok(vec![1, 2]));
}

#[test]
fn replies_mark_errors() {
    let ok = reply_for(Ok(vec![7, 8]), vec![0]);
    assert_eq!(ok.payload, vec![7, 8]);
    assert!(!ok.error_header);
    let failed = reply_for(Err(NatsError::MalformedRequest), vec![9]);
    assert_eq!(failed.payload, vec![9]);
    assert!(failed.error_header);
}

#[test]
fn combatant_names_join_given_and_surname() {
    let generator = Generator::new("Ada\nBea\n", "Stone\nRiver");
    assert_eq!(generator.combatant_name(1, 0), "Bea Stone");
    assert_eq!(generator.combatant_name(0, 1), "Ada River");
}

#[test]
fn team_rosters_split_ids_in_runs() {
    let generator = Generator::new("Ada", "Stone");
    let rosters = generator.team_rosters(2, 3);
    assert_eq!(rosters.len(), 2);
    assert_eq!(rosters[0], (0, "Alpha".to_string(), vec![0, 1, 2]));
    assert_eq!(rosters[1].0, 1);
    assert_eq!(rosters[1].2, vec![3, 4, 5]);
    assert_ne!(rosters[1].1, rosters[0].1);
}

#[test]
fn arena_objects_are_numbered_for_clients() {
    assert_eq!(object_type_id(ArenaFeatureKind::Barrier(NavmeshPathingType::Generate)), 1);
    assert_eq!(object_type_id(ArenaFeatureKind::Barrier(NavmeshPathingType::Skip)), 0);
    assert_eq!(object_type_id(ArenaFeatureKind::Barrier(NavmeshPathingType::Block)), 2);
    assert_eq!(object_type_id(ArenaFeatureKind::BallSpawn), 3);
    assert_eq!(object_type_id(ArenaFeatureKind::Plate(9)), 4);
    assert_eq!(object_type_id(ArenaFeatureKind::Other), 0);
    assert_eq!(game_object_type_from_feature(ArenaFeatureKind::Plate(9)), GameObjectType::Plate(9));
    assert_eq!(
        game_object_type_from_feature(ArenaFeatureKind::Barrier(NavmeshPathingType::Skip)),
        GameObjectType::Barrier
    );
    assert_eq!(game_object_type_from_feature(ArenaFeatureKind::BallSpawn), GameObjectType::BallSpawn);
}

#[test]
fn plain_fields_are_required_path_parameters() {
    let shape = |location, required, schema_type| ParameterShape { location, required, schema_type };
    assert_eq!(parameter_shape("u64"), shape(ParameterLocation::Path, true, SchemaType::Integer));
    assert_eq!(parameter_shape("f32"), shape(ParameterLocation::Path, true, SchemaType::Number));
    assert_eq!(parameter_shape("String"), shape(ParameterLocation::Path, true, SchemaType::String));
    assert_eq!(parameter_shape("bool"), shape(ParameterLocation::Path, true, SchemaType::Boolean));
    assert_eq!(parameter_shape("Vec < u8 >"), shape(ParameterLocation::Path, true, SchemaType::Integer));
}

#[test]
fn optional_fields_are_optional_query_parameters() {
    let shape = parameter_shape("Option < bool >");
    assert_eq!(shape.location, ParameterLocation::Query);
    assert!(!shape.required);
    // The inner type is cut with the spaces around it, so it reads as no known type.
    assert_eq!(shape.schema_type, SchemaType::Integer);
    // Without the token spacing the marker is not found.
    assert_eq!(parameter_shape("Option<bool>").location, ParameterLocation::Path);
}

#[test]
fn parameter_descriptions_join_documentation_lines() {
    let values = vec!["\" The id.\"".to_string(), "\" Required.\"".to_string()];
    assert_eq!(parameter_description(&values), "\" The id.\"\n\" Required.\"\n");
    assert_eq!(parameter_description(&vec![]), "");
}
