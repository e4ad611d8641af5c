use proto::case::{to_pascal_case, to_snake_case};

const SAMPLES: [&str; 24] = [
    "",
    "_",
    "___",
    "a",
    "A",
    "Foo",
    "foo",
    "SayHello",
    "say_hello",
    "sayHello",
    "hello_world",
    "HTTPServer",
    "getHTTPResponse",
    "ABC",
    "aB",
    "ABc",
    "a_b",
    "__lead__and__trail__",
    "Foo2Bar",
    "x2",
    "2fast",
    "snake_Case_MIXed",
    "\u{c9}cole\u{c9}t\u{e9}",
    "stream",
];

#[test]
fn snake_case_of_known_names() {
    assert_eq!(to_snake_case("SayHello"), "say_hello");
    assert_eq!(to_snake_case("hello_world"), "hello_world");
    assert_eq!(to_snake_case("Foo"), "foo");
    assert_eq!(to_snake_case("sayHello"), "say_hello");
    assert_eq!(to_snake_case("aB"), "a_b");
    assert_eq!(to_snake_case("Foo2Bar"), "foo2bar");
    assert_eq!(to_snake_case("snake_Case_MIXed"), "snake_case_mi_xed");
}

#[test]
fn pascal_case_of_known_names() {
    assert_eq!(to_pascal_case("say_hello"), "SayHello");
    assert_eq!(to_pascal_case("hello_world"), "HelloWorld");
    assert_eq!(to_pascal_case("Foo"), "Foo");
    assert_eq!(to_pascal_case("foo"), "Foo");
    assert_eq!(to_pascal_case("sayHello"), "SayHello");
    assert_eq!(to_pascal_case("a_b"), "AB");
    assert_eq!(to_pascal_case("2fast"), "2fast");
    assert_eq!(to_pascal_case("x2"), "X2");
}

#[test]
fn a_run_of_capitals_is_one_word() {
    assert_eq!(to_snake_case("HTTPServer"), "http_server");
    assert_eq!(to_pascal_case("HTTPServer"), "HTTPServer");
    assert_eq!(to_snake_case("getHTTPResponse"), "get_http_response");
    assert_eq!(to_pascal_case("getHTTPResponse"), "GetHTTPResponse");
    assert_eq!(to_snake_case("ABC"), "abc");
    assert_eq!(to_snake_case("ABc"), "a_bc");
    assert_eq!(to_pascal_case("ABC"), "ABC");
}

#[test]
fn underscores_belong_to_no_word() {
    assert_eq!(to_snake_case(""), "");
    assert_eq!(to_snake_case("_"), "");
    assert_eq!(to_snake_case("___"), "");
    assert_eq!(to_snake_case("__lead__and__trail__"), "lead_and_trail");
    assert_eq!(to_pascal_case(""), "");
    assert_eq!(to_pascal_case("_"), "");
    assert_eq!(to_pascal_case("__lead__and__trail__"), "LeadAndTrail");
    assert_eq!(to_pascal_case("_x"), "X");
}

#[test]
fn letters_outside_ascii_have_no_case() {
    assert_eq!(to_snake_case("\u{c9}cole\u{c9}t\u{e9}"), "\u{c9}cole\u{c9}t\u{e9}");
    assert_eq!(to_pascal_case("\u{e9}cole_\u{e9}t\u{e9}"), "\u{e9}cole\u{e9}t\u{e9}");
    assert_eq!(to_snake_case("\u{e9}A"), "\u{e9}a");
}

#[test]
fn snake_case_is_idempotent() {
    for sample in SAMPLES {
        let once = to_snake_case(sample);
        assert_eq!(to_snake_case(&once), once, "{:?}", sample);
    }
}

#[test]
fn pascal_case_is_idempotent() {
    for sample in SAMPLES {
        let once = to_pascal_case(sample);
        assert_eq!(to_pascal_case(&once), once, "{:?}", sample);
    }
}

#[test]
fn snake_case_leaves_snake_case_alone() {
    for name in ["say_hello", "foo", "a_b_c", "x2_y", "http_server"] {
        assert_eq!(to_snake_case(name), name);
    }
}

#[test]
fn pascal_case_leaves_pascal_case_alone() {
    for name in ["SayHello", "Foo", "HTTPServer", "X2Y", "AB"] {
        assert_eq!(to_pascal_case(name), name);
    }
}
