use glyphgrid::cli::{plan_run, select_outputs, Action, Selection};

#[test]
fn braille_alone_without_the_blocks_flag() {
    assert_eq!(select_outputs(false, false), Selection { blocks: false, braille: true });
    assert_eq!(select_outputs(false, true), Selection { blocks: false, braille: true });
}

#[test]
fn blocks_alone_with_the_blocks_flag() {
    assert_eq!(select_outputs(true, false), Selection { blocks: true, braille: false });
}

#[test]
fn both_with_both_flags() {
    assert_eq!(select_outputs(true, true), Selection { blocks: true, braille: true });
}

#[test]
fn help_prints_the_usage() {
    for has_input in [false, true] {
        for rect in [false, true] {
            for braille in [false, true] {
                assert_eq!(plan_run(true, has_input, rect, braille), Action::Usage);
            }
        }
    }
}

#[test]
fn no_image_prints_the_usage() {
    assert_eq!(plan_run(false, false, false, false), Action::Usage);
    assert_eq!(plan_run(false, false, true, true), Action::Usage);
}

#[test]
fn an_image_is_rendered_as_the_flags_select() {
    for rect in [false, true] {
        for braille in [false, true] {
            assert_eq!(
                plan_run(false, true, rect, braille),
                Action::Render(select_outputs(rect, braille))
            );
        }
    }
    assert_eq!(
        plan_run(false, true, true, false),
        Action::Render(Selection { blocks: true, braille: false })
    );
}
