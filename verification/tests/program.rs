use render_core::number::decimal;
use render_core::program::{concat_shader, Version};

fn directives(major: u32, minor: u32, is_embedded: bool) -> (String, String) {
    let version = Version::new(major, minor, is_embedded);
    let none: Vec<&str> = vec![];
    let vertex = version.vertex("", &none);
    let fragment = version.fragment("", &none);
    (
        vertex.strip_suffix('\n').unwrap().to_string(),
        fragment.strip_suffix('\n').unwrap().to_string(),
    )
}

#[test]
fn opengl_3_0_to_3_2() {
    assert_eq!(
        directives(3, 0, false),
        ("#version 130".to_string(), "#version 130\n#define HIGHER_THAN_300 1".to_string())
    );
    assert_eq!(
        directives(3, 1, false),
        ("#version 140".to_string(), "#version 140\n#define HIGHER_THAN_300 1".to_string())
    );
    assert_eq!(
        directives(3, 2, false),
        ("#version 150".to_string(), "#version 150\n#define HIGHER_THAN_300 1".to_string())
    );
}

#[test]
fn opengl_from_3_3() {
    assert_eq!(
        directives(3, 3, false),
        ("#version 330".to_string(), "#version 330\n#define HIGHER_THAN_300 1".to_string())
    );
    assert_eq!(
        directives(4, 6, false),
        ("#version 460".to_string(), "#version 460\n#define HIGHER_THAN_300 1".to_string())
    );
    assert_eq!(directives(4, 0, false).0, "#version 400");
}

#[test]
fn opengl_es_3() {
    assert_eq!(
        directives(3, 0, true),
        ("#version 300 es".to_string(), "#version 300 es\n#define HIGHER_THAN_300 1".to_string())
    );
    assert_eq!(directives(3, 2, true).0, "#version 320 es");
}

#[test]
fn opengl_es_2_and_opengl_2() {
    assert_eq!(
        directives(2, 0, true),
        (
            "#version 100\n#define in attribute\n#define out varying".to_string(),
            "#version 100\n#define in varying".to_string()
        )
    );
    assert_eq!(
        directives(2, 1, false),
        (
            "#version 120\n#define in attribute\n#define out varying".to_string(),
            "#version 120\n#define in varying".to_string()
        )
    );
}

#[test]
fn a_shader_without_shared_parts_is_left_as_it_is() {
    let none: Vec<&str> = vec![];
    assert_eq!(
        concat_shader(&String::from("#version 330"), "// #includes\nvoid main() {}", &none),
        "#version 330\n// #includes\nvoid main() {}"
    );
}

#[test]
fn shared_parts_take_the_place_of_the_slot() {
    let parts = vec!["float a();", "float b();"];
    assert_eq!(
        concat_shader(&String::from("#version 330"), "in vec2 p;\n// #includes\nvoid main() {}", &parts),
        "#version 330\nin vec2 p;\n\nfloat a();\nfloat b();\nvoid main() {}"
    );
    assert_eq!(
        concat_shader(&String::from("v"), "no slot", &parts),
        "v\nno slot"
    );
    assert_eq!(
        concat_shader(&String::from("v"), "// #includes// #includes", &vec!["x"]),
        "v\n\nx\nx"
    );
    let version = Version::new(3, 3, false);
    assert_eq!(
        version.vertex("// #includes", &vec!["shared"]),
        "#version 330\n\nshared"
    );
    assert_eq!(
        version.fragment("// #includes", &vec!["shared"]),
        "#version 330\n#define HIGHER_THAN_300 1\n\nshared"
    );
}

#[test]
fn numbers_are_written_in_decimal() {
    assert_eq!(decimal(0), "0");
    assert_eq!(decimal(7), "7");
    assert_eq!(decimal(10), "10");
    assert_eq!(decimal(1234567890), "1234567890");
    assert_eq!(decimal(u64::MAX), "18446744073709551615");
}
