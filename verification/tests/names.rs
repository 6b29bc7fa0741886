use lin_ir::names::{
    combinator_base_name, is_flat_producer_export, is_flat_producer_name,
    is_flat_producer_spec_name, is_range_spec_name, mangle_module_key,
    safe_combinator_callback_index, Combinator,
};
use lin_ir::text::{decimal_text, join, Text};

#[test]
fn mangles_slashes_and_dashes() {
    assert_eq!(mangle_module_key("std/iter"), "std_iter");
    assert_eq!(mangle_module_key("./my-lib/sub-mod"), "._my_lib_sub_mod");
    assert_eq!(mangle_module_key(""), "");
    assert_eq!(mangle_module_key("plain"), "plain");
}

#[test]
fn mangling_twice_changes_nothing() {
    let once = mangle_module_key("a/b-c/ü");
    assert_eq!(once, "a_b_c_ü");
    assert_eq!(mangle_module_key(&once), once);
}

#[test]
fn base_names_lose_library_prefix_and_suffix() {
    assert!(combinator_base_name("std_iter_flatMap") == Some(Combinator::FlatMap));
    assert!(combinator_base_name("flatMap$Int32_String") == Some(Combinator::FlatMap));
    assert!(combinator_base_name("std_array_find") == Some(Combinator::Find));
    assert!(combinator_base_name("some") == Some(Combinator::AnyOf));
    assert!(combinator_base_name("std_iter_every$x") == Some(Combinator::Every));
    assert!(combinator_base_name("std_iter_map").is_none());
}

#[test]
fn base_name_of_another_module_is_none() {
    assert!(combinator_base_name("mylib_flatMap").is_none());
}

#[test]
fn flat_producers() {
    assert!(is_flat_producer_name("lin_range"));
    assert!(is_flat_producer_name("lin_array_allocate_filled"));
    assert!(!is_flat_producer_name("range"));
    assert!(is_flat_producer_export("arrayAllocate"));
    assert!(!is_flat_producer_export("lin_map"));
    assert!(is_flat_producer_spec_name("std_iter_map$Int32"));
    assert!(is_flat_producer_spec_name("my_own_filter"));
    assert!(!is_flat_producer_spec_name("std_iter_reduce"));
    assert!(is_range_spec_name("std_iter_range$2"));
    assert!(!is_range_spec_name("std_iter_ranges"));
}

#[test]
fn safe_callback_positions() {
    for name in ["for", "while", "map", "filter", "find", "some", "every", "lin_some"] {
        assert_eq!(safe_combinator_callback_index(name), Some(1));
    }
    assert_eq!(safe_combinator_callback_index("reduce"), Some(2));
    assert_eq!(safe_combinator_callback_index("flatMap"), None);
}

#[test]
fn texts_render() {
    assert_eq!(decimal_text(0), "0");
    assert_eq!(decimal_text(1907), "1907");
    let sym = join(join(Text::Owned("f".to_string()), Text::Fixed("$default")), Text::Number(12));
    assert_eq!(sym.render(), "f$default12");
}
