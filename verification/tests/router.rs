use demo_service::response::CompressionPolicy;
use demo_service::router::{
    dispatch, find_in_group, resolve, route_table, strip_mount, Group, Handler, Method, Route,
    RouteTable, Target, COMPRESSION_MIN_SIZE,
};

fn compressing(handler: Handler) -> Target {
    Target::Handler { handler, compression: Some(CompressionPolicy { min_size: 256 }) }
}

#[test]
fn string_routes_resolve_to_their_handlers() {
    assert_eq!(dispatch(Method::Get, "/strings/hello"), compressing(Handler::Hello));
    assert_eq!(dispatch(Method::Get, "/strings/async-hello"), compressing(Handler::AsyncHello));
    assert_eq!(dispatch(Method::Get, "/strings/lines"), compressing(Handler::Lines));
}

#[test]
fn series_route_does_not_compress() {
    assert_eq!(
        dispatch(Method::Get, "/math/power-reciprocals-alt"),
        Target::Handler { handler: Handler::PowerReciprocalsAlt, compression: None }
    );
}

#[test]
fn head_is_answered_as_get_is() {
    assert_eq!(dispatch(Method::Head, "/strings/hello"), dispatch(Method::Get, "/strings/hello"));
    assert_eq!(dispatch(Method::Head, "/static/a.css"), dispatch(Method::Get, "/static/a.css"));
}

#[test]
fn other_methods_are_not_allowed_on_served_paths() {
    assert_eq!(dispatch(Method::Other, "/strings/hello"), Target::MethodNotAllowed);
    assert_eq!(dispatch(Method::Other, "/math/power-reciprocals-alt"), Target::MethodNotAllowed);
    assert_eq!(dispatch(Method::Other, "/static/a.css"), Target::MethodNotAllowed);
}

#[test]
fn paths_under_the_mount_point_are_assets() {
    assert_eq!(
        dispatch(Method::Get, "/static/a.css"),
        Target::Asset { path: "/a.css".to_string() }
    );
    assert_eq!(
        dispatch(Method::Get, "/static/img/logo.svg"),
        Target::Asset { path: "/img/logo.svg".to_string() }
    );
    assert_eq!(dispatch(Method::Get, "/static/"), Target::Asset { path: "/".to_string() });
    assert_eq!(dispatch(Method::Get, "/static"), Target::Asset { path: String::new() });
    assert_eq!(
        dispatch(Method::Get, "/static/strings/hello"),
        Target::Asset { path: "/strings/hello".to_string() }
    );
}

#[test]
fn everything_else_is_not_found() {
    for path in [
        "", "/", "/hello", "/strings", "/strings/", "/strings/hello/", "/strings/Hello",
        "/strings/hello2", "/math", "/math/power-reciprocals", "/staticx", "/stati", "static/a",
        "/Static/a", "/strings/lines/3",
    ] {
        assert_eq!(dispatch(Method::Get, path), Target::NotFound, "{:?}", path);
        assert_eq!(dispatch(Method::Other, path), Target::NotFound, "{:?}", path);
    }
}

#[test]
fn route_table_groups_the_string_routes() {
    let table = route_table();
    assert_eq!(table.asset_mount, "/static");
    assert_eq!(table.asset_dir, "static");
    assert_eq!(table.groups.len(), 2);
    let strings = &table.groups[0];
    assert_eq!(strings.prefix, "/strings");
    assert_eq!(strings.compression, Some(CompressionPolicy { min_size: COMPRESSION_MIN_SIZE }));
    let paths: Vec<&str> = strings.routes.iter().map(|r| r.path).collect();
    assert_eq!(paths, vec!["/hello", "/async-hello", "/lines"]);
    let root = &table.groups[1];
    assert_eq!(root.prefix, "");
    assert_eq!(root.compression, None);
    assert_eq!(root.routes.len(), 1);
    assert_eq!(root.routes[0].path, "/math/power-reciprocals-alt");
    assert_eq!(COMPRESSION_MIN_SIZE, 256);
}

#[test]
fn resolve_agrees_with_dispatch_on_the_service_table() {
    let table = route_table();
    for path in ["/strings/hello", "/strings/lines", "/static/x", "/nothing", "/math/power-reciprocals-alt"] {
        for method in [Method::Get, Method::Head, Method::Other] {
            assert_eq!(resolve(&table, method, path), dispatch(method, path));
        }
    }
}

fn small_table() -> RouteTable {
    RouteTable {
        groups: vec![
            Group {
                prefix: "/a",
                routes: vec![
                    Route { path: "/x", handler: Handler::Hello },
                    Route { path: "/x", handler: Handler::Lines },
                ],
                compression: Some(CompressionPolicy { min_size: 0 }),
            },
            Group {
                prefix: "",
                routes: vec![
                    Route { path: "/a/x", handler: Handler::AsyncHello },
                    Route { path: "/files/inside", handler: Handler::Lines },
                ],
                compression: None,
            },
        ],
        asset_mount: "/files",
        asset_dir: "files",
    }
}

#[test]
fn the_first_route_for_a_path_wins() {
    assert_eq!(
        resolve(&small_table(), Method::Get, "/a/x"),
        Target::Handler {
            handler: Handler::Hello,
            compression: Some(CompressionPolicy { min_size: 0 })
        }
    );
}

#[test]
fn routes_come_before_assets() {
    let table = small_table();
    assert_eq!(
        resolve(&table, Method::Get, "/files/inside"),
        Target::Handler { handler: Handler::Lines, compression: None }
    );
    assert_eq!(
        resolve(&table, Method::Get, "/files/outside"),
        Target::Asset { path: "/outside".to_string() }
    );
    assert_eq!(resolve(&table, Method::Get, "/static/x"), Target::NotFound);
}

#[test]
fn an_empty_table_serves_assets_only() {
    let table = RouteTable { groups: Vec::new(), asset_mount: "/s", asset_dir: "s" };
    assert_eq!(resolve(&table, Method::Get, "/s/x"), Target::Asset { path: "/x".to_string() });
    assert_eq!(resolve(&table, Method::Get, "/t/x"), Target::NotFound);
}

#[test]
fn find_in_group_joins_prefix_and_path() {
    let table = small_table();
    assert_eq!(find_in_group(&table.groups[0], &"/a/x".to_string()), Some(Handler::Hello));
    assert_eq!(find_in_group(&table.groups[0], &"/x".to_string()), None);
    assert_eq!(find_in_group(&table.groups[0], &"/a".to_string()), None);
    assert_eq!(find_in_group(&table.groups[1], &"/a/x".to_string()), Some(Handler::AsyncHello));
}

#[test]
fn strip_mount_wants_a_whole_segment() {
    assert_eq!(strip_mount("/static/a", "/static"), Some("/a".to_string()));
    assert_eq!(strip_mount("/static", "/static"), Some(String::new()));
    assert_eq!(strip_mount("/statics/a", "/static"), None);
    assert_eq!(strip_mount("/stat", "/static"), None);
    assert_eq!(strip_mount("/other/static/a", "/static"), None);
    assert_eq!(strip_mount("/é/ü", "/é"), Some("/ü".to_string()));
    assert_eq!(strip_mount("/a", ""), Some("/a".to_string()));
    assert_eq!(strip_mount("a", ""), None);
}
