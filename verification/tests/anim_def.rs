use mech3ax::anim_def::AnimDef;
use mech3ax::error::{Detail, Error};

fn names(list: &[&str]) -> Vec<String> {
    list.iter().map(|s| s.to_string()).collect()
}

fn anim_def() -> AnimDef {
    AnimDef {
        nodes: names(&["root", "arm", "leg", "arm"]),
        lights: names(&["sun", "lamp"]),
        sounds: names(&["boom"]),
    }
}

#[test]
fn name_is_found_by_index() {
    let ctx = anim_def();
    assert_eq!(ctx.node_from_index(0, 9), Ok("root".to_string()));
    assert_eq!(ctx.node_from_index(3, 9), Ok("arm".to_string()));
    assert_eq!(ctx.light_from_index(1, 9), Ok("lamp".to_string()));
    assert_eq!(ctx.sound_from_index(0, 9), Ok("boom".to_string()));
}

#[test]
fn index_outside_the_table_fails_at_the_offset() {
    let ctx = anim_def();
    assert_eq!(ctx.node_from_index(4, 9), Err(Error::Assertion { label: "node index", offset: 9, detail: Detail::Condition }));
    assert_eq!(
        ctx.light_from_index(2, 10),
        Err(Error::Assertion { label: "light index", offset: 10, detail: Detail::Condition })
    );
    assert_eq!(
        ctx.sound_from_index(usize::MAX, 11),
        Err(Error::Assertion { label: "sound index", offset: 11, detail: Detail::Condition })
    );
}

#[test]
fn index_is_found_by_name() {
    let ctx = anim_def();
    assert_eq!(ctx.node_to_index(&"root".to_string()), Ok(0));
    assert_eq!(ctx.node_to_index(&"leg".to_string()), Ok(2));
    assert_eq!(ctx.light_to_index(&"lamp".to_string()), Ok(1));
    assert_eq!(ctx.sound_to_index(&"boom".to_string()), Ok(0));
}

#[test]
fn first_index_is_given_for_a_name_that_is_there_twice() {
    let ctx = anim_def();
    assert_eq!(ctx.node_to_index(&"arm".to_string()), Ok(1));
}

#[test]
fn absent_name_fails() {
    let ctx = anim_def();
    assert_eq!(
        ctx.node_to_index(&"tail".to_string()),
        Err(Error::Assertion { label: "node name", offset: 0, detail: Detail::Condition })
    );
    assert_eq!(
        ctx.light_to_index(&"root".to_string()),
        Err(Error::Assertion { label: "light name", offset: 0, detail: Detail::Condition })
    );
    assert_eq!(
        ctx.sound_to_index(&"".to_string()),
        Err(Error::Assertion { label: "sound name", offset: 0, detail: Detail::Condition })
    );
}

#[test]
fn index_identity() {
    let ctx = anim_def();
    for name in ["root", "arm", "leg"] {
        let index = ctx.node_to_index(&name.to_string()).unwrap();
        assert_eq!(ctx.node_from_index(index, 0), Ok(name.to_string()));
    }
    for name in ["sun", "lamp"] {
        let index = ctx.light_to_index(&name.to_string()).unwrap();
        assert_eq!(ctx.light_from_index(index, 0), Ok(name.to_string()));
    }
    let index = ctx.sound_to_index(&"boom".to_string()).unwrap();
    assert_eq!(ctx.sound_from_index(index, 0), Ok("boom".to_string()));
}

#[test]
fn empty_tables_hold_nothing() {
    let ctx = AnimDef { nodes: vec![], lights: vec![], sounds: vec![] };
    assert_eq!(ctx.node_from_index(0, 3), Err(Error::Assertion { label: "node index", offset: 3, detail: Detail::Condition }));
    assert_eq!(
        ctx.node_to_index(&"root".to_string()),
        Err(Error::Assertion { label: "node name", offset: 0, detail: Detail::Condition })
    );
}
