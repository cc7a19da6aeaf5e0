use akgine::home::Home;
use akgine::navigation::page::{Page, PageTrait};
use akgine::navigation::router::Router;
use akgine::todo::home::Home as TodoHome;

#[test]
fn router_path_is_normalised() {
    let r = Router::new("/todo/list/");
    assert_eq!(r.path(), "/todo/list");
    assert_eq!(r.index(), 0);
    assert_eq!(r.current(), Some("todo"));
    assert_eq!(Router::new("").path(), "/");
}

#[test]
fn entering_then_exiting_comes_back() {
    let mut r = Router::new("a/b/c");
    r.enter();
    assert_eq!(r.current(), Some("b"));
    r.exit();
    assert_eq!(r.index(), 0);
    assert_eq!(r.current(), Some("a"));
    r.exit();
    assert_eq!(r.index(), 0);
}

#[test]
fn push_replaces_what_follows_the_current_segment() {
    let mut r = Router::new("a/b/c");
    r.push("x");
    assert_eq!(r.path(), "/a/x");
    r.enter();
    assert_eq!(r.current(), Some("x"));
    r.enter();
    assert_eq!(r.current(), None);
}

#[test]
fn page_visibility() {
    let mut p = Page::new("Title", "Desc", false, 3);
    assert_eq!(p.title(), "Title");
    assert_eq!(p.description(), "Desc");
    assert!(!p.isShow());
    p.show();
    assert!(p.isShow());
    p.hide_page();
    assert!(!p.isShow());
    assert_eq!(p.ordre, 3);
}

#[test]
fn home_pages() {
    let h = Home::init();
    assert_eq!(h.page().title(), "Home");
    assert_eq!(h.page().description(), "Page principale");
    assert!(h.page().isShow());
    let t = TodoHome::init();
    assert_eq!(t.page().title(), "todoHome");
    assert_eq!(t.page().description(), "Page principale du todo");
    assert_eq!(t.page.ordre, 1);
}
