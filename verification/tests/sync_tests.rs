use web_home::clock::Cache;
use web_home::components::RefreshTime;
use web_home::front_enum::AllFrontErrorEnum;
use web_home::holder::ModuleHolder;
use web_home::module_positions::ModulePositions;
use web_home::module_type::{ModuleType, StringToModuleType};
use web_home::record::{ModuleContent, ModuleReturnUpdate};
use web_home::store::{ModuleReturnRetrieve, ModuleStore};
use web_home::todo::Todo;
use web_home::user_data::{env_encode, UserData};

fn logged_in() -> UserData {
    let mut u = UserData::default();
    u.login_install("id".to_string(), "session-secret".to_string());
    u
}

fn record(name: &str, tag: &str, ts: i64, content: &str) -> ModuleContent {
    let mut r = ModuleContent::new(name.to_string(), tag.to_string());
    r.timestamp = ts;
    r.content = content.to_string();
    r
}

#[test]
fn clocks_order_and_advance() {
    let a = Cache::newFrom(10);
    let b = Cache::newFrom(20);
    assert!(a.isOlder(&b));
    assert!(b.isNewer(&a));
    assert!(!a.isNewer(&b));
    assert_eq!(a.get(), 10);
    let mut c = Cache::newFrom(5);
    let before = c.get();
    c.update();
    assert!(c.get() > before);
    c.update_from(7);
    assert_eq!(c.get(), 7);
}

#[test]
fn store_rejects_stale_pushes() {
    let mut store = ModuleStore::new();
    let r100 = record("0_TODO", "TODO", 100, "a");
    assert_eq!(store.update(&r100), ModuleReturnUpdate::OK);
    assert_eq!(store.update(&record("0_TODO", "TODO", 100, "b")), ModuleReturnUpdate::OUTDATED);
    assert_eq!(store.update(&record("0_TODO", "TODO", 50, "c")), ModuleReturnUpdate::OUTDATED);
    assert_eq!(store.update(&record("0_TODO", "TODO", 150, "d")), ModuleReturnUpdate::OK);
    match store.retrieve(&"0_TODO".to_string()) {
        ModuleReturnRetrieve::UPDATED(rec) => {
            assert_eq!(rec.timestamp, 150);
            assert_eq!(rec.content, "d");
        },
        ModuleReturnRetrieve::EMPTY => panic!("record must be stored"),
    }
    assert!(store.remove(&"0_TODO".to_string()));
    assert!(matches!(store.retrieve(&"0_TODO".to_string()), ModuleReturnRetrieve::EMPTY));
}

#[test]
fn store_lists_unknown_modules() {
    let mut store = ModuleStore::new();
    store.update(&record("links", "links", 1, ""));
    store.update(&record("2_RSS", "RSS", 1, ""));
    store.update(&record("5_TODO", "TODO", 1, ""));
    let missing = store.retrieveMissingModule(&vec!["links".to_string()]);
    assert_eq!(missing.len(), 2);
    assert!(missing.contains(&"2_RSS".to_string()));
    assert!(missing.contains(&"5_TODO".to_string()));
}

#[test]
fn links_commit_scenario() {
    let mut holder = ModuleHolder::new();
    let mut store = ModuleStore::new();
    let user = logged_in();

    assert!(!holder.links_get().cache_mustUpdate());
    let links = holder.links_get_mut();
    assert!(links.links_add("home".to_string(), "https://example.com".to_string()).is_none());
    assert!(links.links_add("news".to_string(), "https://example.org".to_string()).is_none());
    assert!(holder.links_get().cache_mustUpdate());
    let t1 = holder.links_get().cache_getUpdate().get();

    assert!(holder.editMode_validate(&mut store, &user).is_none());
    assert!(!holder.links_get().cache_mustUpdate());
    match store.retrieve(&"links".to_string()) {
        ModuleReturnRetrieve::UPDATED(rec) => {
            assert_eq!(rec.timestamp, t1);
            let decoded = web_home::links::links_decode(&rec.content).unwrap();
            assert_eq!(decoded.len(), 2);
            assert_eq!(decoded[0].label, "home");
            assert_eq!(decoded[1].url, "https://example.org");
        },
        ModuleReturnRetrieve::EMPTY => panic!("links must be stored"),
    }
}

#[test]
fn links_editing_rules() {
    let mut holder = ModuleHolder::new();
    let links = holder.links_get_mut();
    assert!(matches!(
        links.links_add("l".to_string(), String::new()),
        Some(web_home::front_enum::AllFrontUIEnum::MUST_NOT_EMPTY)
    ));
    assert!(matches!(
        links.links_add(String::new(), "https://example.com".to_string()),
        Some(web_home::front_enum::AllFrontUIEnum::MUST_NOT_EMPTY)
    ));
    assert!(matches!(
        links.links_add("l".to_string(), "not a url".to_string()),
        Some(web_home::front_enum::AllFrontUIEnum::INVALID_URL)
    ));
    assert!(links.links_add("a".to_string(), "https://a.example".to_string()).is_none());
    assert!(links.links_add("b".to_string(), "https://b.example".to_string()).is_none());
    assert!(links.links_add("a".to_string(), "https://a2.example".to_string()).is_none());
    let items = links.links();
    assert_eq!(items.len(), 2);
    assert_eq!(items[0].label, "b");
    assert_eq!(items[1].label, "a");
    assert_eq!(items[1].url, "https://a2.example");
    links.links_move(1, 0);
    assert_eq!(links.links()[0].label, "a");
    assert!(links.links_remove(0));
    assert_eq!(links.links().len(), 1);
    assert!(!links.links_remove(5));
}

#[test]
fn two_tabs_conflict_is_rejected() {
    let mut store = ModuleStore::new();
    let user = logged_in();

    // Both tabs know the module at timestamp 10.
    let seed = record("0_TODO", "TODO", 10, "shared note");
    let mut tab_a = ModuleHolder::new();
    let module_a = ModuleType::newFromModuleContent(&seed).unwrap();
    let name = tab_a.blocks_insert(ModulePositions::newFromModuleContent(&seed, module_a));
    assert_eq!(name, "0_TODO");
    let mut tab_b = ModuleHolder::new();
    let module_b = ModuleType::newFromModuleContent(&seed).unwrap();
    tab_b.blocks_insert(ModulePositions::newFromModuleContent(&seed, module_b));

    // Tab A edits and pushes at 20: accepted.
    assert!(tab_a.module_mark_sent(&name, 10));
    store.update(&record("0_TODO", "TODO", 20, "tab a wins"));
    assert!(tab_a.module_mark_sent(&name, 20));

    // Tab B, still believing the send clock is 10, edits to 15 and pushes.
    assert!(tab_b.module_mark_sent(&name, 10));
    // Its local edit advanced its own clock only to 15.
    let rec15 = record("0_TODO", "TODO", 15, "tab b edit");
    let mut fresh_b = ModuleHolder::new();
    let module_b15 = ModuleType::newFromModuleContent(&rec15).unwrap();
    fresh_b.blocks_insert(ModulePositions::newFromModuleContent(&rec15, module_b15));
    assert!(fresh_b.module_mark_sent(&name, 10));
    let r = fresh_b.module_update(&mut store, &user, &name);
    assert!(matches!(r, Some(AllFrontErrorEnum::MODULE_OUTDATED)));
    // The stored record still holds tab A's version.
    match store.retrieve(&name) {
        ModuleReturnRetrieve::UPDATED(rec) => {
            assert_eq!(rec.timestamp, 20);
            assert_eq!(rec.content, "tab a wins");
        },
        ModuleReturnRetrieve::EMPTY => panic!("record must be stored"),
    }
}

#[test]
fn push_and_pull_through_the_engine() {
    let mut store = ModuleStore::new();
    let user = logged_in();

    // A dirty module is pushed encrypted, and decrypts back on pull.
    let seed = record("0_TODO", "TODO", 30, "note v1");
    let mut holder = ModuleHolder::new();
    let module = ModuleType::newFromModuleContent(&seed).unwrap();
    let name = holder.blocks_insert(ModulePositions::newFromModuleContent(&seed, module));
    assert!(holder.module_mark_sent(&name, 10));
    assert!(holder.module_update(&mut store, &user, &name).is_none());
    let stored = match store.retrieve(&name) {
        ModuleReturnRetrieve::UPDATED(rec) => rec,
        ModuleReturnRetrieve::EMPTY => panic!("record must be stored"),
    };
    assert_eq!(stored.timestamp, 30);
    assert_ne!(stored.content, "note v1");
    assert_eq!(user.decrypt_with_password(&stored.content).unwrap(), "note v1");

    // Pushing without a session secret fails without touching the store.
    let mut other = ModuleHolder::new();
    let m2 = ModuleType::newFromModuleContent(&seed).unwrap();
    other.blocks_insert(ModulePositions::newFromModuleContent(&seed, m2));
    assert!(other.module_mark_sent(&name, 10));
    let r = other.module_update(&mut store, &UserData::default(), &name);
    assert!(matches!(r, Some(AllFrontErrorEnum::SERVER_ERROR(_))));
}

#[test]
fn get_or_update_never_clobbers_newer_local_edits() {
    let mut store = ModuleStore::new();
    let user = logged_in();

    let seed = record("0_TODO", "TODO", 50, "local");
    let mut holder = ModuleHolder::new();
    let module = ModuleType::newFromModuleContent(&seed).unwrap();
    let name = holder.blocks_insert(ModulePositions::newFromModuleContent(&seed, module));

    // The stored record is older than the local edit clock: not applied.
    let mut old_rec = record("0_TODO", "TODO", 40, "stale");
    old_rec.content = env_encode(&user.crypt_with_password(&"stale".to_string()).unwrap());
    store.update(&old_rec);
    assert!(holder.module_getOrUpdate(&mut store, &user, &name).is_none());
    match &holder.blocks_get()[0].1.inner() {
        ModuleType::TODO(todo) => assert_eq!(todo.content(), "local"),
        _ => panic!("expected a todo module"),
    }

    // A strictly newer stored record is applied.
    let mut new_rec = record("0_TODO", "TODO", 60, "");
    new_rec.content = env_encode(&user.crypt_with_password(&"fresh".to_string()).unwrap());
    store.update(&new_rec);
    assert!(holder.module_getOrUpdate(&mut store, &user, &name).is_none());
    match &holder.blocks_get()[0].1.inner() {
        ModuleType::TODO(todo) => assert_eq!(todo.content(), "fresh"),
        _ => panic!("expected a todo module"),
    }
}

#[test]
fn discovery_advances_the_ordinal() {
    let mut store = ModuleStore::new();
    let user = logged_in();

    // The server holds links plus two modules this session never saw.
    let links_rec = record("links", "links", 1, &web_home::links::links_encode(&vec![]));
    store.update(&links_rec);
    let mut rss_holder = web_home::rss::Rss::new();
    rss_holder.set_link("https://example.com/feed".to_string());
    let rss_export = rss_holder.export();
    let mut rss_rec = record("2_RSS", "RSS", 5, "");
    rss_rec.content = env_encode(&user.crypt_with_password(&rss_export.content).unwrap());
    store.update(&rss_rec);
    let mut todo_rec = record("5_TODO", "TODO", 5, "");
    todo_rec.content = env_encode(&user.crypt_with_password(&"todo".to_string()).unwrap());
    store.update(&todo_rec);

    let mut holder = ModuleHolder::new();
    assert!(holder.editMode_cancel(&store, &user, true).is_none());
    assert_eq!(holder.blocks_get().len(), 2);

    // The next locally created module uses an ordinal past every
    // discovered one: no collision, ever.
    let fresh = StringToModuleType("TODO").unwrap();
    let name = holder.blocks_insert(ModulePositions::new(fresh));
    assert_eq!(name, "6_TODO");
    assert!(holder.blocks_get().iter().filter(|(k, _)| *k == name).count() == 1);
}

#[test]
fn cancel_without_stored_links_is_a_missing_module() {
    let store = ModuleStore::new();
    let user = logged_in();
    let mut holder = ModuleHolder::new();
    let r = holder.editMode_cancel(&store, &user, true);
    assert!(matches!(r, Some(AllFrontErrorEnum::MODULE_NOTEXIST)));
}

#[test]
fn corrupt_stored_content_leaves_a_module_untouched() {
    let mut rss = web_home::rss::Rss::new();
    rss.set_title("kept".to_string());
    let garbage = record("0_RSS", "RSS", 9, "not a config");
    assert!(!rss.import(garbage));
    assert_eq!(rss.config().title, "kept");
    assert!(ModuleType::newFromModuleContent(&record("0_X", "X", 1, "")).is_none());
}

#[test]
fn module_removal_pauses_the_refresh_timer() {
    let mut store = ModuleStore::new();
    let user = logged_in();
    let seed = record("0_TODO", "TODO", 10, "x");
    let mut holder = ModuleHolder::new();
    let module = ModuleType::newFromModuleContent(&seed).unwrap();
    let name = holder.blocks_insert(ModulePositions::newFromModuleContent(&seed, module));
    holder.cron_register(&name, RefreshTime::MINUTES(1));
    let cron = holder.crons_find(&name).unwrap();
    assert_eq!(cron.interval, 60_000);
    assert!(!cron.paused);

    assert!(holder.module_mark_sent(&name, 5));
    assert!(holder.module_update(&mut store, &user, &name).is_none());
    assert!(holder.module_remove(&mut store, &name).is_none());
    assert!(matches!(store.retrieve(&name), ModuleReturnRetrieve::EMPTY));
    let cron = holder.crons_find(&name).unwrap();
    assert!(cron.paused);
    assert_eq!(cron.interval, 60_000);
}

#[test]
fn touching_a_module_makes_it_dirty() {
    let seed = record("0_TODO", "TODO", 10, "x");
    let mut holder = ModuleHolder::new();
    let module = ModuleType::newFromModuleContent(&seed).unwrap();
    let name = holder.blocks_insert(ModulePositions::newFromModuleContent(&seed, module));
    assert!(!holder.blocks_get()[0].1.cache_mustUpdate());
    assert!(holder.module_touch(&name));
    assert!(holder.blocks_get()[0].1.cache_mustUpdate());
    assert!(!holder.module_touch(&"9_RSS".to_string()));
}

#[test]
fn todo_truncates_to_its_cap() {
    let mut todo = Todo::new();
    let long: String = "x".repeat(web_home::todo::MAX_LENGTH + 7);
    todo.set_content(long);
    assert_eq!(todo.content().chars().count(), web_home::todo::MAX_LENGTH);
    assert!(todo.cache_mustUpdate());
}

#[test]
fn inserted_blocks_get_distinct_ordinals() {
    let mut holder = ModuleHolder::new();
    let a = holder.blocks_insert(ModulePositions::new(StringToModuleType("TODO").unwrap()));
    let b = holder.blocks_insert(ModulePositions::new(StringToModuleType("RSS").unwrap()));
    let c = holder.blocks_insert(ModulePositions::new(StringToModuleType("TODO").unwrap()));
    assert_eq!(a, "0_TODO");
    assert_eq!(b, "1_RSS");
    assert_eq!(c, "2_TODO");
    assert_eq!(holder.blocks_get().len(), 3);
}

#[test]
fn cancel_reloads_dirty_blocks_from_the_store() {
    let mut store = ModuleStore::new();
    let user = logged_in();

    // The server holds a newer copy of the module.
    let mut server_rec = record("0_TODO", "TODO", 40, "");
    server_rec.content = env_encode(&user.crypt_with_password(&"server copy".to_string()).unwrap());
    store.update(&server_rec);

    // The local session has diverging edits: clock 10, acknowledged 5.
    let seed = record("0_TODO", "TODO", 10, "local draft");
    let mut holder = ModuleHolder::new();
    let module = ModuleType::newFromModuleContent(&seed).unwrap();
    let name = holder.blocks_insert(ModulePositions::newFromModuleContent(&seed, module));
    assert!(holder.module_mark_sent(&name, 5));
    assert!(holder.blocks_get()[0].1.cache_mustUpdate());

    // Cancel drops the local edits in favor of the stored record.
    assert!(holder.editMode_cancel(&store, &user, false).is_none());
    assert!(!holder.blocks_get()[0].1.cache_mustUpdate());
    match &holder.blocks_get()[0].1.inner() {
        ModuleType::TODO(todo) => assert_eq!(todo.content(), "server copy"),
        _ => panic!("expected a todo module"),
    }
    assert_eq!(holder.blocks_get()[0].1.cache_getUpdate().get(), 40);
}
