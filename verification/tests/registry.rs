use valor::plugin::Plugin;
use valor::registry::PluginRegistry;
use valor::routes::RouteTable;

fn plugin(name: &str, prefix: &str) -> Plugin {
    Plugin::new(name.as_bytes().to_vec(), prefix.as_bytes().to_vec())
}

#[test]
fn match_exact_prefix() {
    let mut r = PluginRegistry::new();
    r.register(plugin("a", "/a"), 1);
    let hit = r.match_plugin_handler(&b"/a".to_vec()).expect("exact path resolves");
    assert_eq!(hit.0.name, b"a".to_vec());
    assert_eq!(hit.0.prefix, b"/a".to_vec());
    assert_eq!(hit.1, 1);
}

#[test]
fn match_nested_path() {
    let mut r = PluginRegistry::new();
    r.register(plugin("a", "/a"), 1);
    let hit = r.match_plugin_handler(&b"/a/sub/path".to_vec()).expect("nested path resolves");
    assert_eq!(hit.0.name, b"a".to_vec());
}

#[test]
fn no_match_without_segment_boundary() {
    let mut r = PluginRegistry::new();
    r.register(plugin("foo", "/foo"), 1);
    assert!(r.match_plugin_handler(&b"/foo".to_vec()).is_some());
    assert!(r.match_plugin_handler(&b"/foo/bar".to_vec()).is_some());
    assert!(r.match_plugin_handler(&b"/foobar".to_vec()).is_none());
}

#[test]
fn no_match_on_empty_registry() {
    let r = PluginRegistry::new();
    assert!(r.match_plugin_handler(&b"/anything".to_vec()).is_none());
    assert!(r.match_plugin_handler(&b"".to_vec()).is_none());
}

#[test]
fn longest_prefix_wins() {
    let mut r = PluginRegistry::new();
    r.register(plugin("outer", "/a"), 1);
    r.register(plugin("inner", "/a/b"), 2);
    let hit = r.match_plugin_handler(&b"/a/b/c".to_vec()).expect("resolves");
    assert_eq!(hit.0.name, b"inner".to_vec());
    assert_eq!(hit.1, 2);
    let hit = r.match_plugin_handler(&b"/a/c".to_vec()).expect("resolves");
    assert_eq!(hit.0.name, b"outer".to_vec());
}

#[test]
fn trailing_slash_prefix_owns_children() {
    let mut r = PluginRegistry::new();
    r.register(plugin("root", "/"), 7);
    let hit = r.match_plugin_handler(&b"/anything".to_vec()).expect("resolves");
    assert_eq!(hit.0.name, b"root".to_vec());
}

#[test]
fn second_registration_replaces_whole_pair() {
    let mut r = PluginRegistry::new();
    r.register(plugin("a", "/first"), 1);
    r.register(plugin("a", "/second"), 2);
    let hit = r.match_plugin_handler(&b"/second".to_vec()).expect("new prefix resolves");
    assert_eq!(hit.0.name, b"a".to_vec());
    assert_eq!(hit.0.prefix, b"/second".to_vec());
    assert_eq!(hit.1, 2);
    // the stale route still resolves, to the fully-new pair, never a mixed one
    let hit = r.match_plugin_handler(&b"/first".to_vec()).expect("old route resolves");
    assert_eq!(hit.0.prefix, b"/second".to_vec());
    assert_eq!(hit.1, 2);
    assert_eq!(r.plugin_list().len(), 1);
}

#[test]
fn list_returns_each_registration() {
    let mut r = PluginRegistry::new();
    r.register(plugin("a", "/a"), 1);
    r.register(plugin("b", "/b"), 2);
    r.register(plugin("c", "/c"), 3);
    let list = r.plugin_list();
    assert_eq!(list.len(), 3);
    let names: Vec<Vec<u8>> = list.iter().map(|p| p.name.clone()).collect();
    assert!(names.contains(&b"a".to_vec()));
    assert!(names.contains(&b"b".to_vec()));
    assert!(names.contains(&b"c".to_vec()));
    let a = list.iter().find(|p| p.name == b"a".to_vec()).unwrap();
    assert_eq!(a.prefix, b"/a".to_vec());
}

#[test]
fn route_table_find_reports_longest() {
    let mut t = RouteTable::new();
    t.insert(b"/x".to_vec(), b"one".to_vec());
    t.insert(b"/x/y".to_vec(), b"two".to_vec());
    let (prefix, name) = t.find(&b"/x/y/z".to_vec()).expect("owned path resolves");
    assert_eq!(prefix, b"/x/y".to_vec());
    assert_eq!(name, b"two".to_vec());
    assert!(t.find(&b"/xy".to_vec()).is_none());
}

#[test]
fn route_table_same_prefix_last_wins() {
    let mut t = RouteTable::new();
    t.insert(b"/x".to_vec(), b"one".to_vec());
    t.insert(b"/x".to_vec(), b"two".to_vec());
    let (_, name) = t.find(&b"/x".to_vec()).expect("resolves");
    assert_eq!(name, b"two".to_vec());
}

#[test]
fn handler_of_reports_current_handle() {
    let mut r = PluginRegistry::new();
    assert_eq!(r.handler_of(&b"a".to_vec()), None);
    r.register(plugin("a", "/a"), 1);
    assert_eq!(r.handler_of(&b"a".to_vec()), Some(1));
    r.register(plugin("a", "/a2"), 2);
    assert_eq!(r.handler_of(&b"a".to_vec()), Some(2));
    assert_eq!(r.handler_of(&b"b".to_vec()), None);
}

#[test]
fn interleaved_registrations_and_lookups_stay_consistent() {
    let mut r = PluginRegistry::new();
    for k in 0..16u32 {
        let name = format!("plugin{}", k);
        let prefix = format!("/p{}", k);
        r.register(plugin(&name, &prefix), k as u64);
        // every earlier registration is still fully resolvable
        for j in 0..=k {
            let path = format!("/p{}/sub", j).into_bytes();
            let (desc, handle) = r.match_plugin_handler(&path).expect("registered route resolves");
            assert_eq!(desc.name, format!("plugin{}", j).into_bytes());
            assert_eq!(desc.prefix, format!("/p{}", j).into_bytes());
            assert_eq!(handle, j as u64);
        }
        // and names never registered stay unresolved
        assert!(r.match_plugin_handler(&format!("/q{}", k).into_bytes()).is_none());
    }
    assert_eq!(r.plugin_list().len(), 16);
}
