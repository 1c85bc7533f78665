use lox::language::definition::{
    provide_completions, provide_definition, COMPLETION_TYPE_METHOD, COMPLETION_TYPE_PROPERTY,
};
use lox::location::FileLocation;

#[test]
fn test_definitions() {
    let tests: Vec<(&str, (u32, u32), Vec<((u32, u32), (u32, u32))>)> = vec![
        ("fred = 1;", (0, 0), vec![]),
        ("var fred;\nfred = 1;", (1, 1), vec![((0, 4), (0, 8))]),
        (
            "class Test {\n  hello() {}\n}\nTest().hello();",
            (3, 7),
            vec![((1, 2), (1, 7))],
        ),
        (
            "class Test {\n  hello() {}\n}\nvar test = Test();\ntest.hello();",
            (4, 5),
            vec![((1, 2), (1, 7))],
        ),
        (
            "class Base {\n  hello() {}\n}\nclass Test < Base {}\nvar test = Test();\ntest.hello();",
            (5, 5),
            vec![((1, 2), (1, 7))],
        ),
        (
            "class Base {\n  hello() {}\n}\nclass Test < Base {\n  hello() {}\n}\nvar test = Test();\ntest.hello();",
            (7, 5),
            vec![((4, 2), (4, 7))],
        ),
        (
            "class Base {\n  hello() {}\n}\nclass Test < Base {\n  hello() {\n    super.hello();\n  }\n}",
            (5, 10),
            vec![((1, 2), (1, 7))],
        ),
        (
            "class Test {\n  first() {}\n  second() {\n    this.first();\n  }\n}",
            (3, 9),
            vec![((1, 2), (1, 7))],
        ),
        (
            "fun Test(param) {\n  print param;\n}",
            (1, 9),
            vec![((0, 9), (0, 14))],
        ),
        (
            "fun Test(param) {\n  print param;\n}\nvar test = Test();\nprint test;",
            (4, 6),
            vec![((3, 4), (3, 8))],
        ),
        (
            "class Test {\n  first() {}\n}\nvar t = Test();\nt.property = 10;\nt.property = 20;",
            (5, 2),
            vec![((4, 2), (4, 10))],
        ),
        (
            "var value = 10;\nif ( value == 10) {\n  value = 20;\n} else {\n  value = 30;\n}",
            (1, 5),
            vec![((0, 4), (0, 9))],
        ),
        (
            "var value = 10;\nif ( value == 10) {\n  value = 20;\n} else {\n  value = 30;\n}",
            (2, 2),
            vec![((0, 4), (0, 9))],
        ),
        (
            "var value = 10;\nif ( value == 10) {\n  value = 20;\n} else {\n  value = 30;\n}",
            (4, 2),
            vec![((0, 4), (0, 9))],
        ),
        (
            "fun function(value) {\n  return value;\n}",
            (1, 9),
            vec![((0, 13), (0, 18))],
        ),
        (
            "class Test {\n  condition() {}\n};\nvar t = Test();\nwhile (t.condition()) {\n  print t.condition();\n}",
            (4, 9),
            vec![((1, 2), (1, 11))],
        ),
        (
            "var a = 10;\nvar b = 20;\nvar c = (a + b) * 2;",
            (2, 9),
            vec![((0, 4), (0, 5))],
        ),
        (
            "var a = 10;\nvar b = 20;\nif (a > !b) {\n print \"here\";\n}",
            (2, 4),
            vec![((0, 4), (0, 5))],
        ),
        (
            "var a = 10;\nvar b = true;\nif (a > 10 or !b) {\n print \"here\";\n}",
            (2, 15),
            vec![((1, 4), (1, 5))],
        ),
    ];
    for (source, (line_number, line_offset), expected_locations) in tests {
        let result = provide_definition(
            &FileLocation {
                line_number,
                line_offset,
            },
            source,
        );
        assert_eq!(
            result.len(),
            expected_locations.len(),
            "Unexpected number of locations for {}",
            source
        );
        for (location, expected_location) in result.iter().zip(expected_locations) {
            if (location.start != FileLocation::new(expected_location.0 .0, expected_location.0 .1))
                || (location.end != FileLocation::new(expected_location.1 .0, expected_location.1 .1))
            {
                panic!("Missing location for {} {:?}", source, location);
            }
        }
    }
}

#[test]
fn test_completions() {
    let tests: Vec<(&str, (u32, u32), Vec<(&str, u32)>)> = vec![
        (
            "class Test {\n  first() {}\n  second() {}\n}\nvar test = Test();\ntest.",
            (5, 4),
            vec![
                ("first", COMPLETION_TYPE_METHOD),
                ("second", COMPLETION_TYPE_METHOD),
            ],
        ),
        (
            "class Base {\n  first() {}\n}\nclass Test < Base {\n  second() {}\n}\nvar test = Test();\ntest.",
            (7, 4),
            vec![
                ("first", COMPLETION_TYPE_METHOD),
                ("second", COMPLETION_TYPE_METHOD),
            ],
        ),
        (
            "class Test {\n  first() {}\n  second() {}\n}\nTest().",
            (4, 6),
            vec![
                ("first", COMPLETION_TYPE_METHOD),
                ("second", COMPLETION_TYPE_METHOD),
            ],
        ),
        (
            "class Base {\n  first() {}\n}\nclass Test < Base {\n  second() {}\n}\nTest().",
            (6, 6),
            vec![
                ("first", COMPLETION_TYPE_METHOD),
                ("second", COMPLETION_TYPE_METHOD),
            ],
        ),
        (
            "class Base {\n  first() {}\n}\nclass Test < Base {\n  first() {}\n  second() {}\n}\nTest().",
            (7, 6),
            vec![
                ("first", COMPLETION_TYPE_METHOD),
                ("second", COMPLETION_TYPE_METHOD),
            ],
        ),
        (
            "class Test {\n  first() {}\n  second() {\n    this.\n  }\n}",
            (3, 8),
            vec![
                ("first", COMPLETION_TYPE_METHOD),
                ("second", COMPLETION_TYPE_METHOD),
            ],
        ),
        (
            "class Base {\n  first() {}\n}\nclass Test < Base {\n  second() {\n    super.\n  }\n}\nTest().",
            (5, 9),
            vec![("first", COMPLETION_TYPE_METHOD)],
        ),
        (
            "class Test {\n}\nvar t = Test();\nt.property = 10;\nt.\n",
            (4, 2),
            vec![("property", COMPLETION_TYPE_PROPERTY)],
        ),
        (
            "class Test {\n}\nvar t = Test();\nt.first_property = 10;\nt.second_property = 20;\nt.\n",
            (5, 2),
            vec![
                ("first_property", COMPLETION_TYPE_PROPERTY),
                ("second_property", COMPLETION_TYPE_PROPERTY),
            ],
        ),
        (
            "class Base {\n}\nvar b = Base();\nb.base_property = 1;\nclass Test < Base {\n}\nvar t = Test();\nt.test_property = 2;\nt.",
            (8, 1),
            vec![("test_property", COMPLETION_TYPE_PROPERTY)],
        ),
    ];
    for (source, (line_number, line_offset), expected_completions) in tests {
        let result = provide_completions(
            &FileLocation {
                line_number,
                line_offset,
            },
            source,
        );
        assert_eq!(
            result.len(),
            expected_completions.len(),
            "Unexpected number of completions for {}",
            source
        );
        for (completion, expected_completion) in result.iter().zip(expected_completions) {
            let expected_completion = (expected_completion.0.to_string(), expected_completion.1);
            if *completion != expected_completion {
                panic!("Missing completion for {} {:?}", source, completion);
            }
        }
    }
}

#[test]
fn completions_are_sorted_without_repeats() {
    let completions = lox::language::completion::sort_unique(vec![
        ("b".to_string(), 1),
        ("a".to_string(), 9),
        ("b".to_string(), 1),
        ("a".to_string(), 1),
    ]);
    assert_eq!(
        completions,
        vec![
            ("a".to_string(), 1),
            ("a".to_string(), 9),
            ("b".to_string(), 1)
        ]
    );
}
