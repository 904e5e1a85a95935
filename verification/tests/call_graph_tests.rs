use cargo_pup::lints::call_graph::{function_hazardous, CallFacts, CallGraph, Hazard, Terminator};
use cargo_pup::lints::no_allocation::{detect_allocation_in_mir, function_allocates, is_allocating_function};
use cargo_pup::lints::no_panic::{classify_panic_source, detect_panic_in_mir, PanicCategory};

fn call(path: &str, callee: Option<usize>, fn_args: Vec<usize>) -> Terminator {
    Terminator::Call(CallFacts { path: path.to_string(), callee, fn_args })
}

#[test]
fn classifies_allocating_paths() {
    assert!(is_allocating_function("alloc::alloc::exchange_malloc"));
    assert!(is_allocating_function("std::boxed::Box::<T>::new"));
    assert!(is_allocating_function("std::vec::Vec::<T>::with_capacity"));
    assert!(is_allocating_function("std::string::String::from"));
    assert!(is_allocating_function("alloc::fmt::format"));
    assert!(is_allocating_function("std::sync::Arc::<T>::clone"));
    assert!(is_allocating_function("std::collections::HashMap::<K, V>::insert"));
    assert!(is_allocating_function("<str as std::string::ToString>::to_string"));
    assert!(is_allocating_function("alloc::raw_vec::RawVec::<T>::allocate_in"));
    assert!(!is_allocating_function("std::vec::Vec::<T>::len"));
    assert!(!is_allocating_function("core::option::Option::<T>::is_some"));
}

#[test]
fn classifies_panic_sources() {
    assert_eq!(classify_panic_source("core::option::Option::<T>::unwrap"), Some(PanicCategory::Unwrap));
    assert_eq!(classify_panic_source("core::result::Result::<T, E>::expect_err"), Some(PanicCategory::Unwrap));
    assert_eq!(classify_panic_source("core::slice::index::slice_end_index_len_fail"), Some(PanicCategory::IndexBounds));
    assert_eq!(classify_panic_source("core::panicking::panic_fmt"), Some(PanicCategory::ExplicitPanic));
    assert_eq!(classify_panic_source("std::rt::begin_panic"), Some(PanicCategory::ExplicitPanic));
    assert_eq!(classify_panic_source("core::option::Option::<T>::map"), None);
}

#[test]
fn reports_the_first_allocating_call_with_its_reason() {
    let graph = CallGraph {
        bodies: vec![
            Some(vec![
                call("std::vec::Vec::<T>::len", None, vec![]),
                call("core::iter::Iterator::map", None, vec![1]),
                call("std::string::String::new", None, vec![]),
            ]),
            Some(vec![call("std::boxed::Box::<T>::new", None, vec![])]),
        ],
    };
    let mut cache = vec![None, None];
    let v = detect_allocation_in_mir(&graph, 0, &mut cache).unwrap();
    assert_eq!(v.site, 1);
    assert_eq!(v.reason, "passes allocating closure to core::iter::Iterator::map");
    assert_eq!(cache, vec![None, Some(true)]);
}

#[test]
fn cycles_without_allocation_end_quietly() {
    let graph = CallGraph {
        bodies: vec![
            Some(vec![call("app::b", Some(1), vec![])]),
            Some(vec![call("app::a", Some(0), vec![]), Terminator::BoundsCheck]),
        ],
    };
    let mut cache = vec![None, None];
    assert!(detect_allocation_in_mir(&graph, 0, &mut cache).is_none());
    assert!(!function_allocates(&graph, 1, &mut cache));
    assert_eq!(cache, vec![Some(false), Some(false)]);
}

#[test]
fn functions_without_a_body_are_taken_not_to_allocate() {
    let graph = CallGraph { bodies: vec![None, Some(vec![call("app::x", Some(0), vec![])])] };
    let mut cache = vec![None, None];
    assert!(detect_allocation_in_mir(&graph, 1, &mut cache).is_none());
    assert!(!function_hazardous(&graph, 0, Hazard::Allocation, &mut cache));
}

#[test]
fn panic_detection_follows_the_selected_categories() {
    let graph = CallGraph {
        bodies: vec![
            Some(vec![
                Terminator::BoundsCheck,
                call("core::option::Option::<T>::unwrap", None, vec![]),
                call("app::helper", Some(1), vec![]),
            ]),
            Some(vec![call("core::panicking::panic", None, vec![])]),
        ],
    };
    let v = detect_panic_in_mir(&graph, 0, &vec![PanicCategory::IndexBounds]).unwrap();
    assert_eq!((v.site, v.reason.as_str()), (0, "index bounds check may panic"));
    let v = detect_panic_in_mir(&graph, 0, &vec![PanicCategory::Unwrap]).unwrap();
    assert_eq!((v.site, v.reason.as_str()), (1, "calls panicking function: core::option::Option::<T>::unwrap"));
    let v = detect_panic_in_mir(&graph, 0, &vec![PanicCategory::ExplicitPanic]).unwrap();
    assert_eq!((v.site, v.reason.as_str()), (2, "calls function that may panic: app::helper"));
    assert!(detect_panic_in_mir(&graph, 1, &vec![PanicCategory::Unwrap]).is_none());
}

#[test]
fn remembered_answers_are_given_back_and_new_ones_remembered() {
    let graph = CallGraph {
        bodies: vec![
            Some(vec![call("std::boxed::Box::<T>::new", None, vec![])]),
            Some(vec![call("app::a", Some(0), vec![])]),
        ],
    };
    let mut cache = vec![None, None];
    assert!(function_allocates(&graph, 0, &mut cache));
    assert_eq!(cache, vec![Some(true), None]);
    assert!(function_hazardous(&graph, 1, Hazard::Allocation, &mut cache));
    assert_eq!(cache, vec![Some(true), Some(true)]);
    let mut known = vec![Some(false), None];
    assert!(!function_allocates(&graph, 0, &mut known));
    assert_eq!(known, vec![Some(false), None]);
}

#[test]
fn panics_reached_through_cycles_are_found() {
    // 0 calls 1; 1 calls 0 back and then panics through 2.
    let graph = CallGraph {
        bodies: vec![
            Some(vec![call("app::one", Some(1), vec![])]),
            Some(vec![call("app::zero", Some(0), vec![]), call("app::two", Some(2), vec![])]),
            Some(vec![call("core::option::Option::<T>::unwrap", None, vec![])]),
        ],
    };
    let v = detect_panic_in_mir(&graph, 0, &vec![PanicCategory::Unwrap]).unwrap();
    assert_eq!((v.site, v.reason.as_str()), (0, "calls function that may panic: app::one"));
    assert!(detect_panic_in_mir(&graph, 0, &vec![PanicCategory::IndexBounds]).is_none());
    let mut cache = vec![None, None, None];
    let v = detect_allocation_in_mir(&graph, 0, &mut cache);
    assert!(v.is_none());
    assert_eq!(cache, vec![Some(false), Some(false), Some(false)]);
}
