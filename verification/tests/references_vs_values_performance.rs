use rust_concepts::perf::{
    process_string_by_ref, process_string_by_value, process_user_by_ref, process_user_by_value,
    process_vec_by_ref, process_vec_by_value, repeat_char, PerfUser,
};
use std::hint::black_box;
use std::time::Instant;

#[test]
fn references_vs_values_performance_index() {
    medium_strings();
    large_struct();
    references_vs_values_performance_vectors();
}

#[test]
fn medium_strings() {
    let iterations = 10_000;
    let s = "x".repeat(1000);
    assert_eq!(repeat_char('x', 1000), s);
    assert_eq!(process_string_by_ref(&s), 1000);
    assert_eq!(process_string_by_value(s.clone()), 1000);
    let start = Instant::now();
    for _ in 0..iterations {
        let _ = black_box(process_string_by_ref(black_box(&s)));
    }
    let duration_ref = start.elapsed();
    let start = Instant::now();
    for _ in 0..iterations {
        let _ = black_box(process_string_by_value(black_box(s.clone())));
    }
    let duration_value = start.elapsed();
    let ratio = duration_value.as_nanos() as f64 / duration_ref.as_nanos().max(1) as f64;
    println!("    By reference: {:?}", duration_ref);
    println!("    By value (clone): {:?}", duration_value);
    println!("    Factor: {:.1}x", ratio);
    assert!(ratio > 1.0, "clone should be slower");
}

#[test]
fn large_struct() {
    let iterations = 1_000;
    let users: Vec<PerfUser> = (0..iterations)
        .map(|i| PerfUser {
            id: i,
            text1: (0..1000).map(|_| 'a').collect(),
            text2: (0..1000).map(|_| 'a').collect(),
            age: 30,
        })
        .collect();
    assert!(process_user_by_ref(&users[0]));
    assert!(process_user_by_value(users[0].clone()));
    let minor = PerfUser { id: 7, text1: String::new(), text2: String::new(), age: 18 };
    assert!(!process_user_by_ref(&minor));
    let start = Instant::now();
    for user in &users {
        let _ = black_box(process_user_by_ref(black_box(user)));
    }
    let duration_ref_user = start.elapsed();
    let start = Instant::now();
    for user in &users {
        let _ = black_box(process_user_by_value(black_box(user.clone())));
    }
    let duration_value_user = start.elapsed();
    println!("    By reference: {:?}", duration_ref_user);
    println!("    By value (clone): {:?}", duration_value_user);
}

#[test]
fn references_vs_values_performance_vectors() {
    let iterations = 1_000;
    let vecs: Vec<Vec<i32>> = (0..iterations).map(|_| (0..1000).collect()).collect();
    assert_eq!(process_vec_by_ref(&vecs[0]), 1000);
    assert_eq!(process_vec_by_value(vecs[0].clone()), 1000);
    let start = Instant::now();
    for vec in &vecs {
        let _ = black_box(process_vec_by_ref(black_box(vec)));
    }
    let duration_ref = start.elapsed();
    let start = Instant::now();
    for vec in &vecs {
        let _ = black_box(process_vec_by_value(black_box(vec.clone())));
    }
    let duration_value = start.elapsed();
    println!("    By reference: {:?}", duration_ref);
    println!("    By value (clone): {:?}", duration_value);
}
