use valor::control::{ControlRequest, ControlStep};
use valor::plugin::Plugin;
use valor::registry::PluginRegistry;

fn plugin(name: &str, prefix: &str) -> Plugin {
    Plugin::new(name.as_bytes().to_vec(), prefix.as_bytes().to_vec())
}

fn listing(r: &PluginRegistry) -> Vec<u8> {
    match r.handle_control(ControlRequest::Get) {
        ControlStep::Reply(resp) => {
            assert_eq!(resp.status, 200);
            assert!(resp.json);
            resp.body
        }
        ControlStep::Load(_) => panic!("GET never loads"),
    }
}

#[test]
fn get_lists_registered_plugins_as_json() {
    let mut r = PluginRegistry::new();
    r.register(plugin("a", "/a"), 1);
    r.register(plugin("b", "/b"), 2);
    let body = listing(&r);
    assert_eq!(
        String::from_utf8(body).unwrap(),
        r#"[{"name":"a","prefix":"/a"},{"name":"b","prefix":"/b"}]"#
    );
}

#[test]
fn get_on_empty_registry_lists_empty_array() {
    let r = PluginRegistry::new();
    assert_eq!(listing(&r), b"[]".to_vec());
}

#[test]
fn listing_escapes_quotes_and_backslashes() {
    let mut r = PluginRegistry::new();
    r.register(
        Plugin::new(b"a\"b\\c".to_vec(), b"/a".to_vec()),
        1,
    );
    assert_eq!(
        String::from_utf8(listing(&r)).unwrap(),
        r#"[{"name":"a\"b\\c","prefix":"/a"}]"#
    );
}

#[test]
fn listing_escapes_control_bytes() {
    let mut r = PluginRegistry::new();
    r.register(Plugin::new(b"a\nb".to_vec(), b"/a".to_vec()), 1);
    assert_eq!(
        String::from_utf8(listing(&r)).unwrap(),
        r#"[{"name":"a\u000ab","prefix":"/a"}]"#
    );
}

#[test]
fn post_with_unparsable_body_returns_400_and_keeps_state() {
    let mut r = PluginRegistry::new();
    r.register(plugin("a", "/a"), 1);
    let before = listing(&r);
    match r.handle_control(ControlRequest::Post(Err(b"expected value at line 1".to_vec()))) {
        ControlStep::Reply(resp) => {
            assert_eq!(resp.status, 400);
            assert_eq!(resp.body, b"expected value at line 1".to_vec());
        }
        ControlStep::Load(_) => panic!("a failed parse never loads"),
    }
    assert_eq!(listing(&r), before);
}

#[test]
fn post_with_parsed_body_asks_for_a_load() {
    let r = PluginRegistry::new();
    match r.handle_control(ControlRequest::Post(Ok(plugin("p", "/p")))) {
        ControlStep::Load(p) => {
            assert_eq!(p.name, b"p".to_vec());
            assert_eq!(p.prefix, b"/p".to_vec());
        }
        ControlStep::Reply(_) => panic!("a parsed POST goes to the loader"),
    }
}

#[test]
fn failed_load_returns_422_and_keeps_state() {
    let mut r = PluginRegistry::new();
    r.register(plugin("a", "/a"), 1);
    let before = listing(&r);
    let resp = r.finish_load(plugin("p", "/p"), None);
    assert_eq!(resp.status, 422);
    assert_eq!(resp.body, b"Can't load plugin".to_vec());
    assert_eq!(listing(&r), before);
    assert!(r.match_plugin_handler(&b"/p".to_vec()).is_none());
}

#[test]
fn successful_load_registers_and_returns_201() {
    let mut r = PluginRegistry::new();
    let resp = r.finish_load(plugin("p", "/p"), Some(9));
    assert_eq!(resp.status, 201);
    let hit = r.match_plugin_handler(&b"/p/x".to_vec()).expect("new route resolves");
    assert_eq!(hit.0.name, b"p".to_vec());
    assert_eq!(hit.1, 9);
    assert_eq!(
        String::from_utf8(listing(&r)).unwrap(),
        r#"[{"name":"p","prefix":"/p"}]"#
    );
}

#[test]
fn other_method_returns_405() {
    let r = PluginRegistry::new();
    match r.handle_control(ControlRequest::Other) {
        ControlStep::Reply(resp) => {
            assert_eq!(resp.status, 405);
            assert!(resp.body.is_empty());
        }
        ControlStep::Load(_) => panic!("other methods never load"),
    }
}
