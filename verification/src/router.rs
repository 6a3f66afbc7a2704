//! The route table and the resolution of a request line against it.

use crate::response::CompressionPolicy;
use vstd::prelude::*;
use vstd::string::{StrSliceExecFns, StringExecFns};

verus! {

/// The method of a request, as far as routing tells methods apart.
#[derive(Clone, Copy, Debug, PartialEq, Eq, Structural)]
pub enum Method {
    Get,
    Head,
    Other,
}

/// The handlers that a route can be bound to.
#[derive(Clone, Copy, Debug, PartialEq, Eq, Structural)]
pub enum Handler {
    Hello,
    AsyncHello,
    Lines,
    PowerReciprocalsAlt,
}

/// A path, relative to its group's prefix, bound to a handler. Every route
/// answers `GET`, and `HEAD` with it.
#[derive(Debug)]
pub struct Route {
    pub path: &'static str,
    pub handler: Handler,
}

/// Routes mounted under one prefix, sharing one compression stage.
#[derive(Debug)]
pub struct Group {
    pub prefix: &'static str,
    pub routes: Vec<Route>,
    pub compression: Option<CompressionPolicy>,
}

/// The routes of a service and the mount point of its static assets.
#[derive(Debug)]
pub struct RouteTable {
    pub groups: Vec<Group>,
    pub asset_mount: &'static str,
    pub asset_dir: &'static str,
}

/// What a request resolves to.
#[derive(Clone, Debug, PartialEq, Eq)]
pub enum Target {
    /// A handler, with the compression stage of its group.
    Handler { handler: Handler, compression: Option<CompressionPolicy> },
    /// The static asset at `path`, relative to the mount point.
    Asset { path: String },
    /// The path is served, but not under the request's method.
    MethodNotAllowed,
    /// Nothing serves the path.
    NotFound,
}

/// What a request resolves to, as a mathematical value.
pub enum TargetView {
    Handler { handler: Handler, compression: Option<CompressionPolicy> },
    Asset { path: Seq<char> },
    MethodNotAllowed,
    NotFound,
}

impl View for Target {
    type V = TargetView;

    open spec fn view(&self) -> TargetView {
        match self {
            Target::Handler { handler, compression } => TargetView::Handler {
                handler: *handler,
                compression: *compression,
            },
            Target::Asset { path } => TargetView::Asset { path: path@ },
            Target::MethodNotAllowed => TargetView::MethodNotAllowed,
            Target::NotFound => TargetView::NotFound,
        }
    }
}

impl Method {
    /// Whether routes answer this method.
    pub open spec fn reads(self) -> bool {
        self == Method::Get || self == Method::Head
    }
}

/// The handler of the first route of `group`, from index `from` on, whose
/// path under the group's prefix is `path`.
pub open spec fn group_lookup(group: Group, path: Seq<char>, from: int) -> Option<Handler>
    decreases group.routes@.len() - from,
{
    if from < 0 || from >= group.routes@.len() {
        None
    } else if group.prefix@ + group.routes@[from].path@ == path {
        Some(group.routes@[from].handler)
    } else {
        group_lookup(group, path, from + 1)
    }
}

/// The handler and compression stage of the first group of `groups`, from
/// index `from` on, that holds a route for `path`.
pub open spec fn table_lookup(groups: Seq<Group>, path: Seq<char>, from: int) -> Option<
    (Handler, Option<CompressionPolicy>),
>
    decreases groups.len() - from,
{
    if from < 0 || from >= groups.len() {
        None
    } else {
        match group_lookup(groups[from], path, 0) {
            Some(handler) => Some((handler, groups[from].compression)),
            None => table_lookup(groups, path, from + 1),
        }
    }
}

/// Whether `path` is the mount point or lies below it.
pub open spec fn under_mount(path: Seq<char>, mount: Seq<char>) -> bool {
    &&& mount.len() <= path.len()
    &&& path.subrange(0, mount.len() as int) == mount
    &&& (path.len() == mount.len() || path[mount.len() as int] == '/')
}

/// What is left of a path under `mount` once the mount point is gone.
pub open spec fn below_mount(path: Seq<char>, mount: Seq<char>) -> Seq<char> {
    path.subrange(mount.len() as int, path.len() as int)
}

/// What a request resolves to: the first route for its path, then the
/// static assets where the path lies under their mount point, then nothing.
/// A path that is served answers `GET` and `HEAD` only.
pub open spec fn resolution(table: RouteTable, method: Method, path: Seq<char>) -> TargetView {
    match table_lookup(table.groups@, path, 0) {
        Some((handler, compression)) => if method.reads() {
            TargetView::Handler { handler, compression }
        } else {
            TargetView::MethodNotAllowed
        },
        None => if under_mount(path, table.asset_mount@) {
            if method.reads() {
                TargetView::Asset { path: below_mount(path, table.asset_mount@) }
            } else {
                TargetView::MethodNotAllowed
            }
        } else {
            TargetView::NotFound
        },
    }
}

/// The part of `path` below `mount`, where `path` is the mount point or lies
/// below it.
pub fn strip_mount(path: &str, mount: &str) -> (r: Option<String>)
    ensures
        match r {
            Some(rest) => under_mount(path@, mount@) && rest@ == below_mount(path@, mount@),
            None => !under_mount(path@, mount@),
        },
{
    let path_len = path.unicode_len();
    let mount_len = mount.unicode_len();
    if path_len < mount_len {
        return None;
    }
    let mut i: usize = 0;
    while i < mount_len
        invariant
            i <= mount_len <= path_len,
            mount_len == mount@.len(),
            path_len == path@.len(),
            forall|k: int| 0 <= k < i ==> path@[k] == mount@[k],
        decreases mount_len - i,
    {
        if path.get_char(i) != mount.get_char(i) {
            assert(path@.subrange(0, mount@.len() as int)[i as int] != mount@[i as int]);
            return None;
        }
        i = i + 1;
    }
    assert(path@.subrange(0, mount@.len() as int) =~= mount@);
    if path_len > mount_len && path.get_char(mount_len) != '/' {
        return None;
    }
    Some(String::from_str(path.substring_char(mount_len, path_len)))
}

/// The handler of the first route of `group` whose path under the group's
/// prefix is `path`.
pub fn find_in_group(group: &Group, path: &String) -> (r: Option<Handler>)
    ensures
        r == group_lookup(*group, path@, 0),
{
    let mut i: usize = 0;
    while i < group.routes.len()
        invariant
            i <= group.routes.len(),
            group_lookup(*group, path@, 0) == group_lookup(*group, path@, i as int),
        decreases group.routes.len() - i,
    {
        let mut full = String::from_str(group.prefix);
        full.append(group.routes[i].path);
        if full == *path {
            return Some(group.routes[i].handler);
        }
        i = i + 1;
    }
    None
}

/// Resolves a request line against the route table.
pub fn resolve(table: &RouteTable, method: Method, path: &str) -> (r: Target)
    ensures
        r@ == resolution(*table, method, path@),
{
    let reads = match method {
        Method::Get => true,
        Method::Head => true,
        Method::Other => false,
    };
    let owned = String::from_str(path);
    let mut i: usize = 0;
    while i < table.groups.len()
        invariant
            i <= table.groups.len(),
            owned@ == path@,
            reads == method.reads(),
            table_lookup(table.groups@, path@, 0) == table_lookup(table.groups@, path@, i as int),
        decreases table.groups.len() - i,
    {
        match find_in_group(&table.groups[i], &owned) {
            Some(handler) => {
                return if reads {
                    Target::Handler { handler, compression: table.groups[i].compression }
                } else {
                    Target::MethodNotAllowed
                };
            },
            None => {},
        }
        i = i + 1;
    }
    match strip_mount(path, table.asset_mount) {
        Some(rest) => if reads {
            Target::Asset { path: rest }
        } else {
            Target::MethodNotAllowed
        },
        None => Target::NotFound,
    }
}

/// The body size, in bytes, above which the string routes compress.
pub const COMPRESSION_MIN_SIZE: u16 = 256;

/// What a served path answers to a method.
pub open spec fn served(
    method: Method,
    handler: Handler,
    compression: Option<CompressionPolicy>,
) -> TargetView {
    if method.reads() {
        TargetView::Handler { handler, compression }
    } else {
        TargetView::MethodNotAllowed
    }
}

/// The surface of the service: three string routes that compress, the series
/// route that does not, the static assets under `/static`, and nothing else.
pub open spec fn service_target(method: Method, path: Seq<char>) -> TargetView {
    let strings = Some(CompressionPolicy { min_size: COMPRESSION_MIN_SIZE });
    if path == "/strings/hello"@ {
        served(method, Handler::Hello, strings)
    } else if path == "/strings/async-hello"@ {
        served(method, Handler::AsyncHello, strings)
    } else if path == "/strings/lines"@ {
        served(method, Handler::Lines, strings)
    } else if path == "/math/power-reciprocals-alt"@ {
        served(method, Handler::PowerReciprocalsAlt, None)
    } else if under_mount(path, "/static"@) {
        if method.reads() {
            TargetView::Asset { path: below_mount(path, "/static"@) }
        } else {
            TargetView::MethodNotAllowed
        }
    } else {
        TargetView::NotFound
    }
}

/// Whether `group` mounts exactly the routes `routes`, in their order,
/// under `prefix`, behind the stage `compression`.
pub open spec fn group_is(
    group: Group,
    prefix: Seq<char>,
    routes: Seq<(Seq<char>, Handler)>,
    compression: Option<CompressionPolicy>,
) -> bool {
    &&& group.prefix@ == prefix
    &&& group.compression == compression
    &&& group.routes@.len() == routes.len()
    &&& forall|i: int|
        0 <= i < routes.len() ==> (#[trigger] group.routes@[i]).path@ == routes[i].0
            && group.routes@[i].handler == routes[i].1
}

/// Whether `table` is the route table of the service: the string routes as
/// one group under `/strings` that shares one compression stage, the series
/// route on its own, and the static assets of the directory `static` under
/// `/static`.
pub open spec fn is_service_table(table: RouteTable) -> bool {
    &&& table.groups@.len() == 2
    &&& group_is(
        table.groups@[0],
        "/strings"@,
        seq![
            ("/hello"@, Handler::Hello),
            ("/async-hello"@, Handler::AsyncHello),
            ("/lines"@, Handler::Lines),
        ],
        Some(CompressionPolicy { min_size: COMPRESSION_MIN_SIZE }),
    )
    &&& group_is(
        table.groups@[1],
        ""@,
        seq![("/math/power-reciprocals-alt"@, Handler::PowerReciprocalsAlt)],
        None,
    )
    &&& table.asset_mount@ == "/static"@
    &&& table.asset_dir@ == "static"@
}

/// Resolving against the route table of the service gives the surface of
/// the service, for every method and path.
pub proof fn lemma_service_table_resolves(table: RouteTable, method: Method, path: Seq<char>)
    requires
        is_service_table(table),
    ensures
        resolution(table, method, path) == service_target(method, path),
{
    reveal_strlit("/strings");
    reveal_strlit("");
    reveal_strlit("/hello");
    reveal_strlit("/async-hello");
    reveal_strlit("/lines");
    reveal_strlit("/math/power-reciprocals-alt");
    reveal_strlit("/strings/hello");
    reveal_strlit("/strings/async-hello");
    reveal_strlit("/strings/lines");
    assert("/strings"@ + "/hello"@ =~= "/strings/hello"@);
    assert("/strings"@ + "/async-hello"@ =~= "/strings/async-hello"@);
    assert("/strings"@ + "/lines"@ =~= "/strings/lines"@);
    assert(""@ + "/math/power-reciprocals-alt"@ =~= "/math/power-reciprocals-alt"@);
    reveal_with_fuel(group_lookup, 5);
    reveal_with_fuel(table_lookup, 4);
    let strings = table.groups@[0];
    let root = table.groups@[1];
    assert(strings.routes@[0].path@ == "/hello"@ && strings.routes@[1].path@ == "/async-hello"@
        && strings.routes@[2].path@ == "/lines"@);
    assert(root.routes@[0].path@ == "/math/power-reciprocals-alt"@);
    assert(group_lookup(strings, path, 0) == if path == "/strings/hello"@ {
        Some(Handler::Hello)
    } else if path == "/strings/async-hello"@ {
        Some(Handler::AsyncHello)
    } else if path == "/strings/lines"@ {
        Some(Handler::Lines)
    } else {
        None
    });
    assert(group_lookup(root, path, 0) == if path == "/math/power-reciprocals-alt"@ {
        Some(Handler::PowerReciprocalsAlt)
    } else {
        None
    });
}

/// The route table of the service. It is built once and never changes.
pub fn route_table() -> (t: RouteTable)
    ensures
        is_service_table(t),
{
    let mut strings: Vec<Route> = Vec::new();
    strings.push(Route { path: "/hello", handler: Handler::Hello });
    strings.push(Route { path: "/async-hello", handler: Handler::AsyncHello });
    strings.push(Route { path: "/lines", handler: Handler::Lines });
    let mut root: Vec<Route> = Vec::new();
    root.push(Route { path: "/math/power-reciprocals-alt", handler: Handler::PowerReciprocalsAlt });
    let mut groups: Vec<Group> = Vec::new();
    groups.push(
        Group {
            prefix: "/strings",
            routes: strings,
            compression: Some(CompressionPolicy { min_size: COMPRESSION_MIN_SIZE }),
        },
    );
    groups.push(Group { prefix: "", routes: root, compression: None });
    RouteTable { groups, asset_mount: "/static", asset_dir: "static" }
}

/// Resolves a request line against the route table of the service.
pub fn dispatch(method: Method, path: &str) -> (r: Target)
    ensures
        r@ == service_target(method, path@),
{
    let table = route_table();
    proof {
        lemma_service_table_resolves(table, method, path@);
    }
    resolve(&table, method, path)
}

} // verus!
