use aurelia::api_definition::{
    generate_desktop_only_method, generate_ts_method, parse_api_method, parse_api_trait,
    parse_http_method, place_param, replace_text, type_to_ts, ApiAttr, ApiParam, ParamPlace,
    TraitMethod, TypeRef,
};
use aurelia::api_naming::HttpMethod;

fn path_type(name: &str) -> TypeRef {
    TypeRef::Path { first: name.to_string(), last: name.to_string(), arg: None }
}

fn generic(name: &str, inner: TypeRef) -> TypeRef {
    TypeRef::Path { first: name.to_string(), last: name.to_string(), arg: Some(Box::new(inner)) }
}

fn param(name: &str, ty: TypeRef) -> ApiParam {
    ApiParam { name: name.to_string(), ty }
}

fn attr(method: &str, path: &str, flag: Option<&str>) -> Option<ApiAttr> {
    Some(ApiAttr { method: method.to_string(), path: path.to_string(), flag: flag.map(str::to_string) })
}

#[test]
fn parses_path_and_query_params() {
    let items = vec![TraitMethod {
        name: "get_song".to_string(),
        attr: attr("GET", "/songs/{song_id}", None),
        params: vec![param("song_id", path_type("String")), param("include", generic("Option", path_type("String")))],
    }];
    let api = parse_api_trait("Api".to_string(), items).ok().expect("api");
    let method = &api.methods[0];
    assert_eq!(method.http_method, HttpMethod::Get);
    assert_eq!(method.path, "/songs/{song_id}");
    assert_eq!(method.path_params.len(), 1);
    assert_eq!(method.query_params.len(), 1);
    assert!(method.query_params[0].optional);
}

#[test]
fn parses_desktop_only_flag() {
    let items = vec![TraitMethod {
        name: "audio_play".to_string(),
        attr: attr("POST", "/audio/play", Some("desktop_only")),
        params: vec![param("url", path_type("String"))],
    }];
    let api = parse_api_trait("Api".to_string(), items).ok().expect("api");
    let method = &api.methods[0];
    assert!(method.desktop_only);
}

#[test]
fn missing_api_attribute_is_error() {
    let items = vec![TraitMethod { name: "missing".to_string(), attr: None, params: vec![] }];
    let result = parse_api_trait("Api".to_string(), items);
    assert!(result.is_err());
}

#[test]
fn http_methods_by_keyword() {
    assert_eq!(parse_http_method("PATCH"), Ok(HttpMethod::Patch));
    assert_eq!(
        parse_http_method("get"),
        Err("Expected HTTP method (GET, POST, PUT, DELETE, PATCH)".to_string())
    );
    assert_eq!(
        parse_api_method("x".to_string(), None, &vec![]).err(),
        Some("Missing #[api(...)] attribute".to_string())
    );
}

#[test]
fn parameters_are_placed() {
    assert_eq!(place_param("/songs/{id}", "id", &path_type("String")), ParamPlace::Path);
    assert_eq!(place_param("/songs", "data", &path_type("PlaylistCreateData")), ParamPlace::Body);
    assert_eq!(place_param("/songs", "req", &path_type("AuthRequest")), ParamPlace::Body);
    assert_eq!(
        place_param("/songs", "limit", &generic("Option", path_type("u32"))),
        ParamPlace::Query { optional: true }
    );
    assert_eq!(place_param("/songs", "q", &TypeRef::Other), ParamPlace::Query { optional: false });
    // The whole "{name}" must occur.
    assert_eq!(place_param("/songs/{id2}", "id", &path_type("String")), ParamPlace::Query { optional: false });
}

#[test]
fn typescript_types() {
    assert_eq!(type_to_ts(&path_type("String")), "string");
    assert_eq!(type_to_ts(&path_type("u64")), "number");
    assert_eq!(type_to_ts(&path_type("bool")), "boolean");
    assert_eq!(type_to_ts(&generic("Vec", path_type("Song"))), "Song[]");
    assert_eq!(type_to_ts(&generic("Option", generic("Vec", path_type("f32")))), "number[]");
    assert_eq!(type_to_ts(&path_type("Vec")), "any[]");
    assert_eq!(type_to_ts(&path_type("Option")), "any");
    assert_eq!(type_to_ts(&TypeRef::Other), "any");
}

#[test]
fn replace_is_left_to_right_without_overlap() {
    assert_eq!(replace_text("/a/{id}/b/{id}", "{id}", "${id}"), "/a/${id}/b/${id}");
    assert_eq!(replace_text("aaaa", "aa", "b"), "bb");
    assert_eq!(replace_text("abc", "x", "y"), "abc");
}

#[test]
fn client_methods_are_generated() {
    let items = vec![
        TraitMethod {
            name: "get_song".to_string(),
            attr: attr("GET", "/songs/{song_id}", None),
            params: vec![param("song_id", path_type("String")), param("include_lyrics", generic("Option", path_type("bool")))],
        },
        TraitMethod {
            name: "save_setting".to_string(),
            attr: attr("POST", "/settings", None),
            params: vec![param("key", path_type("String")), param("value", path_type("String"))],
        },
        TraitMethod {
            name: "audio_play".to_string(),
            attr: attr("POST", "/audio/play", Some("desktop_only")),
            params: vec![param("url", path_type("String"))],
        },
    ];
    let api = parse_api_trait("Api".to_string(), items).ok().expect("api");
    assert_eq!(
        generate_ts_method(&api.methods[0]),
        "  // getSong\n  getSong: async (songId: string, includeLyrics?: boolean): Promise<Result<any>> => {\n    return apiRequest('GET', `/songs/${songId}`, undefined, { includeLyrics: includeLyrics });\n  },\n"
    );
    assert_eq!(
        generate_ts_method(&api.methods[1]),
        "  // saveSetting\n  saveSetting: async (key: string, value: string): Promise<Result<any>> => {\n    return apiRequest('POST', `/settings`, { key: key, value: value }, undefined);\n  },\n"
    );
    let desktop = generate_desktop_only_method(&api.methods[2]);
    assert!(desktop.starts_with("  // Desktop-only: audioPlay\n  audioPlay: async (...args: any[])"));
    assert!(desktop.contains("const command = `cmd_audioPlay`;"));
}
