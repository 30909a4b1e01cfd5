use qone::entities::{entities_scannable, extract_entities, try_extract_entities};
use qone::types::EntityInfo;

#[test]
fn world_door_and_trigger() {
    let text = "{\n\"classname\" \"worldspawn\"\n\"wad\" \"gfx/base.wad\"\n}\n{\n\"classname\" \"func_door\"\n\"model\" \"*1\"\n}\n{\n\"classname\" \"trigger_once\"\n\"model\" \"*2\"\n}\n";
    let (info, collidable) = extract_entities(text);
    assert_eq!(info.len(), 3);
    assert_eq!(info[0], EntityInfo { type_e: -1, render_debug: -1, collide: 1 });
    assert_eq!(info[1], EntityInfo { type_e: 1, render_debug: -1, collide: 1 });
    assert_eq!(info[2], EntityInfo { type_e: 2, render_debug: -1, collide: -1 });
    assert_eq!(collidable, vec![0, 1]);
}

#[test]
fn unmatched_brace_is_refused() {
    assert!(!entities_scannable("{ \"a\" \"b\" } {"));
    assert!(try_extract_entities("{ \"a\" \"b\" } {").is_none());
}

#[test]
fn model_without_digits_is_refused() {
    assert!(try_extract_entities("{ \"model\" \"*\" }").is_none());
}

#[test]
fn empty_text_gives_only_the_world() {
    let (info, collidable) = extract_entities("");
    assert!(info.is_empty());
    assert_eq!(collidable, vec![0]);
}
