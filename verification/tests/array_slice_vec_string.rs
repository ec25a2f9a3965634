use rust_concepts::iterators::enumerate;
use rust_concepts::slices::{
    ascii_uppercase, byte_len, char_indices, chars_of, copy_to_vec, double_values, get_static,
    substring, sum_i32,
};

#[test]
fn array_slice_vec_string_index() {
    array_slice_vec_string_arrays();
    array_slice_vec_string_array_iteration();
    array_slice_vec_string_vectors();
    array_slice_vec_string_vector_move();
    comparison();
    array_slice_vec_string_performance_characteristics();
    array_slice_vec_string_slices();
    array_slice_vec_string_slice_ranges();
    array_slice_vec_string_slice_from_vec();
    array_slice_vec_string_slice_operations();
    mutable_slices();
    array_slice_vec_string_function_with_mut_slice();
    array_slice_vec_string_mut_str_limited();
    vector_slice();
    array_slice_vec_string_strings();
    array_slice_vec_string_string_mutation();
    array_slice_vec_string_string_is_move();
    array_slice_vec_string_string_slices();
    array_slice_vec_string_str_from_string();
    array_slice_vec_string_string_literals();
    array_slice_vec_string_utf8_slicing();
    array_slice_vec_string_safe_slicing_with_get();
    array_slice_vec_string_char_iteration();
    array_slice_vec_string_invalid_slice_panics();
}

#[test]
fn array_slice_vec_string_indice() {
    arrays();
    array_iteration();
    vectors();
    vector_move();
    comparacion();
    performance_characteristics();
    slices();
    slice_ranges();
    slice_from_vec();
    slice_operations();
    slices_mutables();
    function_with_mut_slice();
    mut_str_limited();
    slice_de_vector();
    strings();
    string_mutation();
    string_is_move();
    string_slices();
    str_from_string();
    string_literals();
    utf8_slicing();
    safe_slicing_with_get();
    char_iteration();
    borrow_checker();
    scoped_borrow();
}

#[test]
fn array_slice_vec_string_arrays() {
    let arr: [i32; 4] = [10, 20, 30, 40];
    let _arr2: [i32; 4] = [1; 4];
    let _arr3: [i32; 0] = [];
    assert_eq!(std::mem::size_of::<[i32; 4]>(), 16);
    assert_eq!(arr[0], 10);
    assert_eq!(arr[3], 40);
    let arr2 = arr;
    assert_eq!(arr[0], arr2[0]);
    let zeros: [i32; 100] = [0; 100];
    assert_eq!(zeros[100 - 1], 0);
}

#[test]
fn arrays() {
    let arr: [i32; 4] = [10, 20, 30, 40];
    assert_eq!(std::mem::size_of::<[i32; 4]>(), 16);
    assert_eq!(arr[0], 10);
    assert_eq!(arr[3], 40);
    let arr2 = arr;
    assert_eq!(arr[0], arr2[0]);
    let zeros: [i32; 100] = [0; 100];
    assert_eq!(zeros[50], 0);
}

#[test]
fn array_slice_vec_string_array_iteration() {
    let arr: [i32; 4] = [1, 2, 3, 4];
    let sum: i32 = arr.iter().sum();
    assert_eq!(sum, 10);
    assert_eq!(sum_i32(&arr), 10);
    for (i, &val) in arr.iter().enumerate() {
        assert_eq!(val, (i + 1) as i32);
    }
    for (i, val) in enumerate(&arr) {
        assert_eq!(val, (i + 1) as i32);
    }
}

#[test]
fn array_slice_vec_string_vectors() {
    let vec: Vec<i32> = vec![10, 20, 30, 40];
    assert_eq!(std::mem::size_of::<Vec<i32>>(), 24);
    assert_eq!(vec.len(), 4);
    assert!(vec.capacity() >= 4);
    assert_eq!(vec[0], 10);
    assert_eq!(vec[3], 40);
}

#[test]
fn array_slice_vec_string_vector_move() {
    let vec1: Vec<i32> = vec![1, 2, 3];
    let ptr_before = vec1.as_ptr();
    let vec2 = vec1;
    let ptr_after = vec2.as_ptr();
    assert_eq!(ptr_before, ptr_after);
}

#[test]
fn comparison() {
    let arr: [i32; 4] = [1, 2, 3, 4];
    let arr2 = arr;
    assert_eq!(arr[0], arr2[0]);
    let vec: Vec<i32> = vec![1, 2, 3, 4];
    let vec2 = vec;
    assert_eq!(vec2[0], 1);
    let vec3 = vec2.clone();
    assert_eq!(vec2[0], vec3[0]);
}

#[test]
fn comparacion() {
    comparison();
}

#[test]
fn array_slice_vec_string_performance_characteristics() {
    let arr: [i32; 1000] = [0; 1000];
    assert_eq!(std::mem::size_of_val(&arr), 4000);
    let vec: Vec<i32> = vec![0; 1000];
    assert_eq!(std::mem::size_of_val(&vec), 24);
    assert!(vec.capacity() >= 1000);
}

#[test]
fn array_slice_vec_string_slices() {
    let arr: [i32; 5] = [10, 20, 30, 40, 50];
    let slice: &[i32] = &arr[1..3];
    assert_eq!(std::mem::size_of::<&[i32]>(), 16);
    assert_eq!(slice.len(), 2);
    assert_eq!(slice[0], 20);
    assert_eq!(slice[1], 30);
    let slice2 = slice;
    assert_eq!(slice[0], slice2[0]);
}

#[test]
fn array_slice_vec_string_slice_ranges() {
    let arr: [i32; 5] = [10, 20, 30, 40, 50];
    assert_eq!(&arr[..2], &[10, 20]);
    assert_eq!(&arr[3..], &[40, 50]);
}

#[test]
fn array_slice_vec_string_slice_from_vec() {
    let vec: Vec<i32> = vec![10, 20, 30, 40, 50];
    let slice: &[i32] = &vec[1..4];
    assert_eq!(slice.len(), 3);
    assert_eq!(slice[0], 20);
    assert!(slice.as_ptr() > vec.as_ptr());
}

#[test]
fn array_slice_vec_string_slice_operations() {
    let arr: [i32; 5] = [10, 20, 30, 40, 50];
    let slice1: &[i32] = &arr[1..4];
    let slice2 = slice1;
    assert_eq!(slice1.as_ptr(), slice2.as_ptr());
    let slice: &[i32] = &arr[..];
    let trimmed1 = &slice[1..4];
    let trimmed2 = &slice[..3];
    assert_eq!(trimmed1, &[20, 30, 40]);
    assert_eq!(trimmed2, &[10, 20, 30]);
    let vec: Vec<i32> = slice1.to_vec();
    assert_ne!(vec.as_ptr(), slice1.as_ptr());
    let v1: Vec<i32> = slice1.to_vec();
    let v2: Vec<i32> = Vec::from(slice1);
    let v3: Vec<i32> = slice1.iter().copied().collect();
    let v4: Vec<i32> = copy_to_vec(slice1);
    assert_eq!(v1, v2);
    assert_eq!(v2, v3);
    assert_eq!(v3, v4);
    assert_ne!(v4.as_ptr(), slice1.as_ptr());
}

#[test]
fn mutable_slices() {
    let mut arr: [i32; 4] = [10, 20, 30, 40];
    let slice_mut: &mut [i32] = &mut arr[1..3];
    slice_mut[0] = 200;
    slice_mut[1] *= 10;
    assert_eq!(slice_mut[0], 200);
    assert_eq!(slice_mut[1], 300);
    assert_eq!(arr, [10, 200, 300, 40]);
}

#[test]
fn slices_mutables() {
    mutable_slices();
}

#[test]
fn array_slice_vec_string_function_with_mut_slice() {
    let mut vec = vec![1, 2, 3, 4, 5];
    double_values(&mut vec[1..4]);
    assert_eq!(vec, [1, 4, 6, 8, 5]);
}

#[test]
fn array_slice_vec_string_mut_str_limited() {
    let mut s = String::from("hello");
    s.make_ascii_uppercase();
    assert_eq!(s, "HELLO");
    assert_eq!(ascii_uppercase("hello"), "HELLO");
}

#[test]
fn vector_slice() {
    let vec: Vec<i32> = vec![10, 20, 30, 40, 50];
    let slice: &[i32] = &vec[1..4];
    assert_eq!(slice.len(), 3);
    assert_eq!(slice, &[20, 30, 40]);
    let vec_ptr = vec.as_ptr();
    let slice_ptr = slice.as_ptr();
    assert_eq!(slice_ptr, vec_ptr.wrapping_add(1));
}

#[test]
fn slice_de_vector() {
    vector_slice();
}

#[test]
fn array_slice_vec_string_strings() {
    let s = String::from("Hello 🦀");
    assert_eq!(std::mem::size_of::<String>(), 24);
    assert_eq!(s.len(), 10);
    assert_eq!(s.chars().count(), 7);
    assert_eq!(byte_len(&s), 10);
    assert_eq!(chars_of(&s).len(), 7);
}

#[test]
fn strings() {
    let s = String::from("Hola 🦀");
    assert_eq!(std::mem::size_of::<String>(), 24);
    assert_eq!(s.len(), 9);
    assert_eq!(s.chars().count(), 6);
    assert_eq!(byte_len(&s), 9);
    assert_eq!(chars_of(&s).len(), 6);
}

#[test]
fn array_slice_vec_string_string_mutation() {
    let mut s = String::from("Hello");
    s.push(' ');
    s.push_str("world");
    assert_eq!(s, "Hello world");
    assert!(s.capacity() >= s.len());
}

#[test]
fn string_mutation() {
    let mut s = String::from("Hola");
    s.push(' ');
    s.push_str("mundo");
    assert_eq!(s, "Hola mundo");
    assert!(s.capacity() >= s.len());
}

#[test]
fn array_slice_vec_string_string_is_move() {
    let s1 = String::from("test");
    let ptr_before = s1.as_ptr();
    let s2 = s1;
    let ptr_after = s2.as_ptr();
    assert_eq!(ptr_before, ptr_after);
}

#[test]
fn array_slice_vec_string_string_slices() {
    let s = String::from("Hello world");
    let slice: &str = &s[0..5];
    assert_eq!(std::mem::size_of::<&str>(), 16);
    assert_eq!(slice, "Hello");
    assert_eq!(slice.len(), 5);
    let slice2 = slice;
    assert_eq!(slice, slice2);
    assert_eq!(substring(&s, 0, 5), Some("Hello"));
}

#[test]
fn string_slices() {
    let s = String::from("Hola mundo");
    let slice: &str = &s[0..4];
    assert_eq!(std::mem::size_of::<&str>(), 16);
    assert_eq!(slice, "Hola");
    assert_eq!(slice.len(), 4);
    let slice2 = slice;
    assert_eq!(slice, slice2);
    assert_eq!(substring(&s, 0, 4), Some("Hola"));
}

#[test]
fn array_slice_vec_string_str_from_string() {
    let s = String::from("hello");
    let slice1: &str = &s;
    let slice2: &str = s.as_str();
    let slice3: &str = &s[..];
    assert_eq!(slice1, slice2);
    assert_eq!(slice2, slice3);
}

#[test]
fn array_slice_vec_string_string_literals() {
    let literal: &'static str = "Hello 🦀";
    assert_eq!(literal.len(), 10);
    assert_eq!(literal.chars().count(), 7);
    let literal2 = literal;
    assert_eq!(literal, literal2);
    let s = get_static();
    assert!(!s.is_empty());
    assert_eq!(s, "this lives forever");
}

#[test]
fn string_literals() {
    let literal: &'static str = "Hola 🦀";
    assert_eq!(literal.len(), 9);
    assert_eq!(literal.chars().count(), 6);
    let literal2 = literal;
    assert_eq!(literal, literal2);
    let s = get_static();
    assert!(!s.is_empty());
}

#[test]
fn array_slice_vec_string_utf8_slicing() {
    let s = String::from("Hello 🦀 rustaceans");
    assert!(s.is_char_boundary(0));
    assert!(s.is_char_boundary(6));
    assert!(!s.is_char_boundary(7));
    assert!(!s.is_char_boundary(8));
    assert!(!s.is_char_boundary(9));
    assert!(s.is_char_boundary(10));
    assert_eq!(&s[0..6], "Hello ");
    assert_eq!(&s[6..10], "🦀");
    assert_eq!(&s[10..], " rustaceans");
    assert_eq!(substring(&s, 0, 6), Some("Hello "));
    assert_eq!(substring(&s, 6, 10), Some("🦀"));
    assert_eq!(substring(&s, 10, s.len()), Some(" rustaceans"));
    assert_eq!(substring(&s, 7, 10), None);
}

#[test]
fn utf8_slicing() {
    let s = String::from("Hola 🦀 rustaceans");
    assert!(s.is_char_boundary(0));
    assert!(s.is_char_boundary(5));
    assert!(!s.is_char_boundary(6));
    assert!(!s.is_char_boundary(7));
    assert!(!s.is_char_boundary(8));
    assert!(s.is_char_boundary(9));
    assert_eq!(&s[0..5], "Hola ");
    assert_eq!(&s[5..9], "🦀");
    assert_eq!(&s[9..], " rustaceans");
    assert_eq!(substring(&s, 5, 9), Some("🦀"));
}

#[test]
fn array_slice_vec_string_safe_slicing_with_get() {
    let s = String::from("Hello 🦀");
    assert!(s.get(0..7).is_none());
    assert!(s.get(0..6).is_some());
    assert_eq!(s.get(6..10), Some("🦀"));
    assert!(substring(&s, 0, 7).is_none());
    assert!(substring(&s, 0, 6).is_some());
    assert_eq!(substring(&s, 6, 10), Some("🦀"));
}

#[test]
fn safe_slicing_with_get() {
    let s = String::from("Hola 🦀");
    assert!(s.get(0..6).is_none());
    assert!(s.get(0..5).is_some());
    assert_eq!(s.get(5..9), Some("🦀"));
    assert!(substring(&s, 0, 6).is_none());
    assert!(substring(&s, 0, 5).is_some());
    assert_eq!(substring(&s, 5, 9), Some("🦀"));
}

#[test]
fn array_slice_vec_string_char_iteration() {
    let s = String::from("Hello 🦀");
    let chars: Vec<char> = s.chars().collect();
    assert_eq!(chars.len(), 7);
    assert_eq!(chars[6], '🦀');
    let indices: Vec<(usize, char)> = s.char_indices().collect();
    assert_eq!(indices[6], (6, '🦀'));
    assert_eq!(chars_of(&s), chars);
    assert_eq!(char_indices(&s), indices);
}

#[test]
fn char_iteration() {
    let s = String::from("Hola 🦀");
    let chars: Vec<char> = s.chars().collect();
    assert_eq!(chars.len(), 6);
    assert_eq!(chars[5], '🦀');
    let indices: Vec<(usize, char)> = s.char_indices().collect();
    assert_eq!(indices[5], (5, '🦀'));
    assert_eq!(char_indices(&s), indices);
}

#[test]
fn array_slice_vec_string_invalid_slice_panics() {
    let s = String::from("Hola 🦀");
    assert_eq!(substring(&s, 0, 6), None);
    let _s = String::from("Hello 🦀");
}

#[test]
fn borrow_checker() {
    let mut s = String::from("Hola");
    let r1: &str = &s;
    let r2: &str = &s;
    assert_eq!(r1, r2);
    s.push_str(" mundo");
    assert_eq!(s, "Hola mundo");
}

#[test]
fn scoped_borrow() {
    let mut s = String::from("Hola");
    {
        let slice: &str = &s[..];
        assert_eq!(slice, "Hola");
    }
    s.push_str(" mundo");
    assert_eq!(s, "Hola mundo");
}

#[test]
fn array_iteration() {
    array_slice_vec_string_array_iteration();
}

#[test]
fn vectors() {
    array_slice_vec_string_vectors();
}

#[test]
fn vector_move() {
    array_slice_vec_string_vector_move();
}

#[test]
fn performance_characteristics() {
    array_slice_vec_string_performance_characteristics();
}

#[test]
fn slices() {
    array_slice_vec_string_slices();
}

#[test]
fn slice_ranges() {
    array_slice_vec_string_slice_ranges();
}

#[test]
fn slice_from_vec() {
    array_slice_vec_string_slice_from_vec();
}

#[test]
fn slice_operations() {
    array_slice_vec_string_slice_operations();
}

#[test]
fn function_with_mut_slice() {
    array_slice_vec_string_function_with_mut_slice();
}

#[test]
fn mut_str_limited() {
    array_slice_vec_string_mut_str_limited();
}

#[test]
fn string_is_move() {
    array_slice_vec_string_string_is_move();
}

#[test]
fn str_from_string() {
    array_slice_vec_string_str_from_string();
}
