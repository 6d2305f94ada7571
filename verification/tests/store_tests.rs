use furnace::error::FurnaceError;
use furnace::recipe::{Recipe, is_laravel_project, site_for};
use furnace::store::RecipeStore;

fn recipe(name: &str, path: &str, version: &str) -> Recipe {
    Recipe {
        name: name.to_string(),
        path: path.to_string(),
        php_version: version.to_string(),
        serve_with: "nginx".to_string(),
        site: format!("{}.test", name),
    }
}

#[test]
fn put_then_get_round_trips() {
    let mut store = RecipeStore::new();
    store.put(recipe("blog", "/srv/blog", "8.2")).unwrap();
    let got = store.get("blog").unwrap();
    assert_eq!(got.path, "/srv/blog");
    assert_eq!(got.php_version, "8.2");
    assert_eq!(got.site, "blog.test");
}

#[test]
fn get_by_path_finds_the_record() {
    let mut store = RecipeStore::new();
    store.put(recipe("blog", "/srv/blog", "8.2")).unwrap();
    store.put(recipe("shop", "/srv/shop", "8.3")).unwrap();
    let got = store.get_by_path("/srv/shop").unwrap();
    assert_eq!(got.name, "shop");
}

#[test]
fn same_path_under_other_name_is_a_conflict() {
    let mut store = RecipeStore::new();
    store.put(recipe("blog", "/srv/blog", "8.2")).unwrap();
    let res = store.put(recipe("weblog", "/srv/blog", "8.2"));
    assert!(matches!(res, Err(FurnaceError::Conflict(_))));
    assert_eq!(store.list().len(), 1);
}

#[test]
fn re_put_same_name_updates_in_place() {
    let mut store = RecipeStore::new();
    store.put(recipe("blog", "/srv/blog", "8.2")).unwrap();
    store.put(recipe("blog", "/srv/blog", "8.3")).unwrap();
    assert_eq!(store.list().len(), 1);
    assert_eq!(store.get("blog").unwrap().php_version, "8.3");
}

#[test]
fn empty_name_is_rejected() {
    let mut store = RecipeStore::new();
    let res = store.put(recipe("", "/srv/blog", "8.2"));
    assert!(matches!(res, Err(FurnaceError::IOFailure(_))));
}

#[test]
fn name_with_slash_is_rejected() {
    let mut store = RecipeStore::new();
    let res = store.put(recipe("a/b", "/srv/blog", "8.2"));
    assert!(matches!(res, Err(FurnaceError::IOFailure(_))));
}

#[test]
fn relative_path_is_rejected() {
    let mut store = RecipeStore::new();
    let res = store.put(recipe("blog", "srv/blog", "8.2"));
    assert!(matches!(res, Err(FurnaceError::IOFailure(_))));
}

#[test]
fn remove_absent_recipe_is_not_an_error() {
    let mut store = RecipeStore::new();
    assert!(store.remove("ghost").is_ok());
    store.put(recipe("blog", "/srv/blog", "8.2")).unwrap();
    assert!(store.remove("blog").is_ok());
    assert!(store.get("blog").is_none());
    assert!(store.remove("blog").is_ok());
}

#[test]
fn backrefs_resolve_and_update() {
    let mut store = RecipeStore::new();
    store.set_backref("/srv/blog", "blog");
    assert_eq!(store.backref_name("/srv/blog").unwrap(), "blog");
    store.set_backref("/srv/blog", "weblog");
    assert_eq!(store.backref_name("/srv/blog").unwrap(), "weblog");
    store.remove_backrefs_for("weblog");
    assert!(store.backref_name("/srv/blog").is_none());
}

#[test]
fn laravel_marker_probe() {
    assert!(is_laravel_project(true, true));
    assert!(!is_laravel_project(true, false));
    assert!(!is_laravel_project(false, true));
}

#[test]
fn site_is_derived_from_the_name() {
    assert_eq!(site_for("blog"), "blog.test");
}
