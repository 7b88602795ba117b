use platinenmachergpt::models::{
    choose_model_file, clean_model_name, collect_model_names, join, model_file_name_of,
    model_of_dir_entry, model_search_dirs, model_search_paths, models_subdir, plan_model_lookup,
    BasePathKind, DirEntryInfo, LookupError,
};

fn entry(name: &str, is_file: bool) -> DirEntryInfo {
    DirEntryInfo { file_name: name.to_string(), is_file }
}

#[test]
fn clean_model_name_removes_separators_and_trims() {
    assert_eq!(clean_model_name("  ../llama3  "), "..llama3");
    assert_eq!(clean_model_name("a/b\\c:d*e?f\"g<h>i|j"), "abcdefghij");
    assert_eq!(clean_model_name("\u{3000}gemma\t"), "gemma");
    assert_eq!(clean_model_name(" / "), "");
}

#[test]
fn cleaning_twice_changes_nothing() {
    let once = clean_model_name(" deep/seek:r1 ");
    assert_eq!(clean_model_name(&once), once);
}

#[test]
fn model_file_name_appends_extension_once() {
    assert_eq!(model_file_name_of("llama3"), "llama3.rkllm");
    assert_eq!(model_file_name_of("llama3.rkllm"), "llama3.rkllm");
    assert_eq!(model_file_name_of("rkllm"), "rkllm.rkllm");
}

#[test]
fn join_follows_unix_paths() {
    assert_eq!(join("/models", "a.rkllm"), "/models/a.rkllm");
    assert_eq!(join("/models/", "a.rkllm"), "/models/a.rkllm");
    assert_eq!(join("", "a.rkllm"), "a.rkllm");
    assert_eq!(join("/models", "/abs"), "/abs");
    assert_eq!(models_subdir("/home/u"), "/home/u/models");
}

#[test]
fn search_paths_for_a_directory_and_cwd() {
    let paths = model_search_paths("llama3", "/srv/models", BasePathKind::Directory, None, Some("/work"));
    assert_eq!(
        paths,
        vec![
            "/srv/models/llama3.rkllm".to_string(),
            "/srv/models/llama3/llama3.rkllm".to_string(),
            "/work/llama3.rkllm".to_string(),
            "/work/models/llama3.rkllm".to_string(),
        ]
    );
}

#[test]
fn search_paths_for_a_file() {
    let paths =
        model_search_paths("gemma", "/srv/m/default.rkllm", BasePathKind::File, Some("/srv/m"), None);
    assert_eq!(paths, vec!["/srv/m/gemma.rkllm".to_string()]);
    let none = model_search_paths("gemma", "/nowhere", BasePathKind::Missing, Some("/"), None);
    assert!(none.is_empty());
}

#[test]
fn lookup_of_an_empty_name_fails() {
    let r = plan_model_lookup(" /:/ ", "/srv", BasePathKind::Directory, None, Some("/w"));
    assert_eq!(r, Err(LookupError::EmptyName));
}

#[test]
fn lookup_picks_first_existing_candidate() {
    let lookup =
        plan_model_lookup(" qwen ", "/srv", BasePathKind::Directory, None, Some("/w")).unwrap();
    assert_eq!(lookup.clean_name, "qwen");
    assert_eq!(lookup.file_name, "qwen.rkllm");
    assert_eq!(lookup.candidates.len(), 4);
    let chosen = choose_model_file(&lookup, &vec![false, true, false, true]);
    assert_eq!(chosen, Ok("/srv/qwen/qwen.rkllm".to_string()));
    let missing = choose_model_file(&lookup, &vec![false, false, false, false]);
    assert_eq!(
        missing,
        Err(LookupError::NotFound {
            file_name: "qwen.rkllm".to_string(),
            searched: lookup.candidates.clone(),
        })
    );
}

#[test]
fn model_of_dir_entry_takes_stems_of_rkllm_files() {
    assert_eq!(model_of_dir_entry(&entry("llama3.rkllm", true)), Some("llama3".to_string()));
    assert_eq!(model_of_dir_entry(&entry("a.b.rkllm", true)), Some("a.b".to_string()));
    assert_eq!(model_of_dir_entry(&entry("llama3.rkllm", false)), None);
    assert_eq!(model_of_dir_entry(&entry("llama3.gguf", true)), None);
    assert_eq!(model_of_dir_entry(&entry(".rkllm", true)), None);
    assert_eq!(model_of_dir_entry(&entry("rkllm", true)), None);
    assert_eq!(model_of_dir_entry(&entry("x.rkllmx", true)), None);
    assert_eq!(model_of_dir_entry(&entry("..", true)), None);
}

#[test]
fn collected_model_names_are_unique_in_first_order() {
    let entries = vec![
        entry("b.rkllm", true),
        entry("notes.txt", true),
        entry("a.rkllm", true),
        entry("sub.rkllm", false),
        entry("b.rkllm", true),
        entry("c.rkllm", true),
    ];
    assert_eq!(
        collect_model_names(&entries),
        vec!["b".to_string(), "a".to_string(), "c".to_string()]
    );
    assert!(collect_model_names(&vec![]).is_empty());
}

#[test]
fn listed_model_resolves_to_its_file() {
    let name = model_of_dir_entry(&entry("deepseek-r1.rkllm", true)).unwrap();
    let clean = clean_model_name(&name);
    assert_eq!(model_file_name_of(&clean), "deepseek-r1.rkllm");
}

#[test]
fn search_dirs_follow_the_configuration() {
    assert_eq!(
        model_search_dirs("/srv/models", true, Some("/srv"), true, Some("/w"), true),
        vec!["/srv/models".to_string(), "/w".to_string(), "/w/models".to_string()]
    );
    assert_eq!(
        model_search_dirs("/srv/m.rkllm", false, Some("/srv"), true, Some("/w"), false),
        vec!["/srv".to_string(), "/w".to_string()]
    );
    assert_eq!(
        model_search_dirs("/srv/m.rkllm", false, Some("/srv"), false, None, true),
        Vec::<String>::new()
    );
}

#[test]
fn forbidden_characters_do_not_change_the_lookup() {
    let plain = plan_model_lookup("llama3", "/srv", BasePathKind::Directory, None, Some("/w"));
    let noisy = plan_model_lookup("l/la:ma*3|", "/srv", BasePathKind::Directory, None, Some("/w"));
    assert_eq!(plain, noisy);
    let file = plan_model_lookup("gemma", "/m/x.rkllm", BasePathKind::File, Some("/m"), None);
    let file_noisy = plan_model_lookup("<gem\\ma>", "/m/x.rkllm", BasePathKind::File, Some("/m"), None);
    assert_eq!(file, file_noisy);
}

#[test]
fn the_model_extension_is_optional() {
    let bare = plan_model_lookup("qwen", "/m/x.rkllm", BasePathKind::File, Some("/m"), Some("/w")).unwrap();
    let full =
        plan_model_lookup("qwen.rkllm", "/m/x.rkllm", BasePathKind::File, Some("/m"), Some("/w")).unwrap();
    assert_eq!(bare.file_name, full.file_name);
    assert_eq!(bare.candidates, full.candidates);
    let missing = plan_model_lookup("qwen", "/gone", BasePathKind::Missing, None, Some("/w")).unwrap();
    let missing_full =
        plan_model_lookup("qwen.rkllm", "/gone", BasePathKind::Missing, None, Some("/w")).unwrap();
    assert_eq!(missing.candidates, missing_full.candidates);
}

#[test]
fn listed_names_follow_the_directories() {
    // Three directories read one after the other.
    let entries = vec![
        entry("b.rkllm", true),
        entry("a.rkllm", true),
        entry("c.rkllm", true),
        entry("a.rkllm", true),
        entry("d.rkllm", true),
        entry("b.rkllm", true),
    ];
    assert_eq!(
        collect_model_names(&entries),
        vec!["b".to_string(), "a".to_string(), "c".to_string(), "d".to_string()]
    );
}

#[test]
fn listed_models_are_looked_up_where_they_were_listed() {
    let dirs = model_search_dirs("/srv", true, Some("/"), true, Some("/w"), true);
    let listing = vec![entry("qwen.rkllm", true), entry("notes.txt", true)];
    let names = collect_model_names(&listing);
    assert_eq!(names, vec!["qwen".to_string()]);
    for dir in &dirs {
        let lookup =
            plan_model_lookup(&names[0], "/srv", BasePathKind::Directory, Some("/"), Some("/w")).unwrap();
        assert!(lookup.candidates.contains(&join(dir, "qwen.rkllm")));
    }
}

#[test]
fn found_models_lie_in_listed_directories() {
    let lookup =
        plan_model_lookup("gemma", "/m/x.rkllm", BasePathKind::File, Some("/m"), Some("/w")).unwrap();
    let dirs = model_search_dirs("/m/x.rkllm", false, Some("/m"), true, Some("/w"), true);
    for path in &lookup.candidates {
        assert!(dirs.iter().any(|d| join(d, "gemma.rkllm") == *path));
    }
}

#[test]
fn lookups_stay_in_the_search_places() {
    let lookup =
        plan_model_lookup("../../etc/x", "/srv", BasePathKind::Directory, None, Some("/w")).unwrap();
    assert_eq!(lookup.file_name, "....etcx.rkllm");
    assert_eq!(
        lookup.candidates,
        vec![
            "/srv/....etcx.rkllm".to_string(),
            "/srv/....etcx/....etcx.rkllm".to_string(),
            "/w/....etcx.rkllm".to_string(),
            "/w/models/....etcx.rkllm".to_string(),
        ]
    );
}
