use cursor_hero::tool_naming::format_tool_image_from_source;
use cursor_hero::tool_naming::format_tool_name_from_source;
use cursor_hero::tool_naming::title_case_with;
use cursor_hero::tool_spawning::clean_name;
use cursor_hero::tool_spawning::ActiveTool;
use cursor_hero::tool_spawning::StartingState;
use cursor_hero::tool_spawning::ToolSpawnConfig;

#[test]
fn name_from_source_path() {
    assert_eq!(format_tool_name_from_source("crates/tools/src/click_tool.rs"), "Click Tool");
    assert_eq!(
        format_tool_name_from_source("crates/tools/src/level_bounds_visibility_tool.rs"),
        "Level Bounds Visibility Tool"
    );
}

#[test]
fn name_from_path_without_file_name() {
    assert_eq!(format_tool_name_from_source(""), "");
    assert_eq!(format_tool_name_from_source("crates/.."), "");
    assert_eq!(format_tool_name_from_source("/"), "");
}

#[test]
fn name_keeps_empty_words_and_inner_capitals() {
    assert_eq!(format_tool_name_from_source("a__b.rs"), "A  B");
    assert_eq!(format_tool_name_from_source("x/hELLO_wORLD"), "HELLO WORLD");
    assert_eq!(format_tool_name_from_source("dir/trailing/"), "Trailing");
}

#[test]
fn name_uses_stem_before_last_dot() {
    assert_eq!(format_tool_name_from_source("archive.tar.gz"), "Archive.tar");
    assert_eq!(format_tool_name_from_source(".hidden"), ".hidden");
    assert_eq!(format_tool_name_from_source("some/./path/."), "Path");
}

#[test]
fn image_from_source_path() {
    assert_eq!(
        format_tool_image_from_source("crates/tools/src/click_tool.rs"),
        "textures/tools/click_tool.png"
    );
    assert_eq!(format_tool_image_from_source(""), "textures/tools/.png");
}

#[test]
fn clean_name_trims_suffixes_and_prefix() {
    assert_eq!(clean_name("crates/tools/src/cube_tool_plugin.rs"), "cube_tool");
    assert_eq!(clean_name("spawn_x_populate.rs"), "x");
    assert_eq!(clean_name("spawn_spawn_a_plugin_plugin.rs"), "a");
    assert_eq!(clean_name("a_populate_plugin.rs"), "a");
    assert_eq!(clean_name("a_plugin_populate.rs"), "a_plugin");
    assert_eq!(clean_name("_plugin"), "");
}

#[test]
fn spawn_config_guesses_name_and_image() {
    let c = ToolSpawnConfig::new();
    assert_eq!(c.name, "Unnamed Tool");
    assert_eq!(c.description, "Who knows what this does?");
    assert_eq!(c.texture, None);
    assert_eq!(c.starting_state, StartingState::Active);
    let c = c
        .guess_name("crates/tools/src/cube_tool_plugin.rs")
        .guess_image("crates/tools/src/cube_tool_plugin.rs", "png")
        .with_description("Spawns cubes")
        .with_starting_state(StartingState::Inactive);
    assert_eq!(c.name, "Cube Tool");
    assert_eq!(c.texture, Some("textures/tools/cube_tool.png".to_string()));
    assert_eq!(c.description, "Spawns cubes");
    assert_eq!(c.starting_state, StartingState::Inactive);
    let c = c.with_asset_image("custom.webp").with_name("Other".to_string());
    assert_eq!(c.texture, Some("textures/tools/custom.webp".to_string()));
    assert_eq!(c.name, "Other");
}

#[test]
fn starting_state_as_active() {
    assert_eq!(StartingState::Active.as_active(), Some(ActiveTool));
    assert_eq!(StartingState::Inactive.as_active(), None);
}

#[test]
fn windows_paths_use_backslashes_and_drives() {
    assert_eq!(format_tool_name_from_source("crates\\tools\\src\\click_tool.rs"), "Click Tool");
    assert_eq!(format_tool_name_from_source("a\\b_c.rs"), "B C");
    assert_eq!(format_tool_name_from_source("C:click_tool.rs"), "Click Tool");
    assert_eq!(format_tool_name_from_source("C:\\x\\hello_tool.rs"), "Hello Tool");
    assert_eq!(format_tool_name_from_source("C:"), "");
    assert_eq!(format_tool_name_from_source("C:\\"), "");
    assert_eq!(format_tool_image_from_source("crates\\tools\\src\\click_tool.rs"), "textures/tools/click_tool.png");
    assert_eq!(clean_name("crates\\tools\\src\\cube_tool_plugin.rs"), "cube_tool");
}

#[test]
fn title_case_uses_the_given_uppercase_forms() {
    let upper: Vec<String> = vec!["X".to_string(), "?".to_string(), "?".to_string(), "YZ".to_string()];
    assert_eq!(title_case_with("ab_c", &upper), "Xb YZ");
}

#[test]
fn windows_prefixes() {
    assert_eq!(format_tool_name_from_source("\\\\server\\share"), "");
    assert_eq!(format_tool_name_from_source("//server/share"), "");
    assert_eq!(format_tool_name_from_source("\\\\server\\share\\x_y.rs"), "X Y");
    assert_eq!(format_tool_name_from_source("\\\\server"), "Server");
    assert_eq!(format_tool_name_from_source("\\\\?\\foo/bar"), "");
    assert_eq!(format_tool_name_from_source("\\\\?\\C:\\a\\b.rs"), "B");
    assert_eq!(format_tool_name_from_source("\\\\?\\x\\."), "");
    assert_eq!(format_tool_name_from_source("\\\\?\\UNC\\s\\t\\f.rs"), "F");
    assert_eq!(format_tool_name_from_source("\\\\.\\COM42"), "");
    assert_eq!(format_tool_name_from_source("\\\\.\\COM42\\a_b.rs"), "A B");
}

#[test]
fn name_keeps_only_the_part_after_the_last_backslash() {
    assert_eq!(format_tool_name_from_source("crates/tools/a\\b_c.rs"), format_tool_name_from_source("a\\b_c"));
    assert_eq!(format_tool_name_from_source("crates/tools/ab:c.rs"), format_tool_name_from_source("ab:c"));
    // A name that starts with a drive is where only the stem no longer decides.
    assert_eq!(format_tool_name_from_source("crates/tools/x:y.rs"), "X:y");
    assert_eq!(format_tool_name_from_source("x:y"), "Y");
}
