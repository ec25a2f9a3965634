use rust_concepts::iterators::{
    all_even, any_even, chain, count, double_all, doubled, doubled_plus_one, enumerate, evens,
    evens_doubled, find_first_even, find_first_greater, product, range_skip_take, skip_n,
    squares_of_evens, take_n, total, zip, MyContainer, MyData, MyIntoIter, MyStringIter,
};

#[test]
fn iterators_index() {
    custom_basic_iterator();
    iterator_string_type();
    what_is_an_iterator();
    safety_advantage();
    readability_advantage();
    composability_advantage();
    iter_immutable_borrow();
    iter_mut_mutable_borrow();
    into_iter_takes_ownership();
    map_transformation();
    filter_predicate();
    iterators_take_skip();
    enumerate_with_indices();
    chain_concatenate();
    zip_pair();
    collect_create_collection();
    sum_sum_elements();
    find_first_element();
    any_all_predicates();
    count_quantity_elements();
    lazy_does_no_work();
    lazy_computes_only_necessary();
    composition_without_intermediates();
}

#[test]
fn iteradores_indice() {
    iterador_personalizado_basico();
    iterador_tipo_string();
    que_es_un_iterador();
    ventaja_seguridad();
    ventaja_legibilidad();
    ventaja_composabilidad();
    iter_prestamo_inmutable();
    iter_mut_prestamo_mutable();
    into_iter_toma_posesion();
    map_transformacion();
    filter_predicado();
    iteradores_take_skip();
    enumerate_con_indices();
    chain_concatenar();
    zip_emparejar();
    collect_crear_coleccion();
    sum_suma_elementos();
    find_primer_elemento();
    any_all_predicados();
    count_cantidad_elementos();
    lazy_no_hace_trabajo();
    lazy_solo_computa_necesario();
    composicion_sin_intermedios();
}

#[test]
fn custom_basic_iterator() {
    let mut iter = MyIntoIter {
        items: vec![1, 2, 3],
        index: 0,
    };
    assert_eq!(iter.next(), Some(1));
    assert_eq!(iter.next(), Some(2));
    assert_eq!(iter.next(), Some(3));
    assert_eq!(iter.next(), None);
    assert_eq!(iter.next(), None);
}

#[test]
fn iterador_personalizado_basico() {
    custom_basic_iterator();
}

#[test]
fn iterator_from_container() {
    let data = MyData::new(vec![1, 2, 3]);
    let mut iter = data.into_iter();
    assert_eq!(iter.next(), Some(1));
    assert_eq!(iter.next(), Some(2));
    assert_eq!(iter.next(), Some(3));
    assert_eq!(iter.next(), None);
}

#[test]
fn iterador_desde_contenedor() {
    iterator_from_container();
}

#[test]
fn iterator_string_type() {
    let mut iter = MyStringIter {
        items: vec!["a".to_string(), "b".to_string(), "c".to_string()],
        index: 0,
    };
    assert_eq!(iter.next(), Some("a".to_string()));
    assert_eq!(iter.next(), Some("b".to_string()));
    assert_eq!(iter.next(), Some("c".to_string()));
    assert_eq!(iter.next(), None);
}

#[test]
fn iterador_tipo_string() {
    iterator_string_type();
}

#[test]
fn use_iter_immutable() {
    let container = MyContainer::new(vec![10, 20, 30]);
    let mut it = container.iter();
    let mut result = Vec::new();
    while let Some(&x) = it.next() {
        result.push(x * 2);
    }
    assert_eq!(result, vec![20, 40, 60]);
    assert_eq!(container.items, vec![10, 20, 30]);
}

#[test]
fn uso_iter_inmutable() {
    use_iter_immutable();
}

#[test]
fn use_iter_mut_mutable() {
    let mut container = MyContainer::new(vec![10, 20, 30]);
    for x in container.iter_mut() {
        *x *= 2;
    }
    assert_eq!(container.items, vec![20, 40, 60]);
}

#[test]
fn uso_iter_mut_mutable() {
    use_iter_mut_mutable();
}

#[test]
fn use_into_iter_consume() {
    let container = MyContainer::new(vec![10, 20, 30]);
    let mut it = container.into_iter();
    let mut result = Vec::new();
    while let Some(x) = it.next() {
        result.push(x * 2);
    }
    assert_eq!(result, vec![20, 40, 60]);
}

#[test]
fn uso_into_iter_consume() {
    use_into_iter_consume();
}

#[test]
fn trait_intoiterator_basic() {
    let data = MyData::new(vec![1, 2, 3]);
    let mut iter = data.into_iter();
    assert_eq!(iter.next(), Some(1));
    assert_eq!(iter.next(), Some(2));
    assert_eq!(iter.next(), Some(3));
    assert_eq!(iter.next(), None);
}

#[test]
fn trait_intoiterator_basico() {
    trait_intoiterator_basic();
}

#[test]
fn trait_intoiterator_in_for_loop() {
    let data = MyData::new(vec![10, 20, 30]);
    let mut iter = data.into_iter();
    let mut sum = 0;
    while let Some(x) = iter.next() {
        sum += x;
    }
    assert_eq!(sum, 60);
}

#[test]
fn trait_intoiterator_en_for_loop() {
    trait_intoiterator_in_for_loop();
}

#[test]
fn trait_intoiterator_with_adapters() {
    let data = MyData::new(vec![1, 2, 3, 4, 5]);
    let mut iter = data.into_iter();
    let mut items = Vec::new();
    while let Some(x) = iter.next() {
        items.push(x);
    }
    let result: Vec<i32> = evens(&items).iter().map(|x| x * 10).collect();
    assert_eq!(result, vec![20, 40]);
}

#[test]
fn trait_intoiterator_con_adaptores() {
    trait_intoiterator_with_adapters();
}

#[test]
fn what_is_an_iterator() {
    let vec = vec![1, 2, 3];
    let mut iter = vec.iter();
    assert_eq!(iter.next(), Some(&1));
    assert_eq!(iter.next(), Some(&2));
    assert_eq!(iter.next(), Some(&3));
    assert_eq!(iter.next(), None);
}

#[test]
fn que_es_un_iterador() {
    what_is_an_iterator();
}

#[test]
fn safety_advantage() {
    let vec = vec![1, 2, 3];
    let count_std = vec.iter().count();
    assert_eq!(count_std, 3);
    assert_eq!(count(&vec), 3);
}

#[test]
fn ventaja_seguridad() {
    safety_advantage();
}

#[test]
fn readability_advantage() {
    let numbers = vec![1, 2, 3, 4, 5];
    let result: Vec<_> = numbers.iter().filter(|&&x| x % 2 == 0).map(|&x| x * 2).collect();
    assert_eq!(result, vec![4, 8]);
    assert_eq!(evens_doubled(&numbers), vec![4, 8]);
}

#[test]
fn ventaja_legibilidad() {
    readability_advantage();
}

#[test]
fn composability_advantage() {
    let numbers = vec![1, 2, 3, 4, 5, 6, 7, 8, 9, 10];
    let result: Vec<_> = numbers
        .iter()
        .filter(|&&x| x % 2 == 0)
        .map(|&x| x * x)
        .take(2)
        .collect();
    assert_eq!(result, vec![4, 16]);
    assert_eq!(squares_of_evens(&numbers, 2), vec![4, 16]);
}

#[test]
fn ventaja_composabilidad() {
    composability_advantage();
}

#[test]
fn iter_immutable_borrow() {
    let numbers = vec![1, 2, 3];
    let d: Vec<_> = numbers.iter().map(|&x| x * 2).collect();
    assert_eq!(d, vec![2, 4, 6]);
    assert_eq!(doubled(&numbers), vec![2, 4, 6]);
    assert_eq!(numbers, vec![1, 2, 3]);
}

#[test]
fn iter_prestamo_inmutable() {
    iter_immutable_borrow();
}

#[test]
fn iter_mut_mutable_borrow() {
    let mut numbers = vec![1, 2, 3];
    for n in numbers.iter_mut() {
        *n *= 2;
    }
    assert_eq!(numbers, vec![2, 4, 6]);
    let mut again = vec![1, 2, 3];
    double_all(&mut again);
    assert_eq!(again, vec![2, 4, 6]);
}

#[test]
fn iter_mut_prestamo_mutable() {
    iter_mut_mutable_borrow();
}

#[test]
fn into_iter_takes_ownership() {
    let numbers = vec![1, 2, 3];
    let d: Vec<_> = numbers.into_iter().map(|x| x * 2).collect();
    assert_eq!(d, vec![2, 4, 6]);
}

#[test]
fn into_iter_toma_posesion() {
    into_iter_takes_ownership();
}

#[test]
fn map_transformation() {
    let numbers = vec![1, 2, 3];
    let d: Vec<_> = numbers.iter().map(|x| x * 2).collect();
    assert_eq!(d, vec![2, 4, 6]);
    let result: Vec<_> = numbers.iter().map(|&x| x * 2).map(|x| x + 1).collect();
    assert_eq!(result, vec![3, 5, 7]);
    assert_eq!(doubled(&numbers), vec![2, 4, 6]);
    assert_eq!(doubled_plus_one(&numbers), vec![3, 5, 7]);
}

#[test]
fn map_transformacion() {
    map_transformation();
}

#[test]
fn filter_predicate() {
    let numbers = vec![1, 2, 3, 4, 5, 6];
    let e: Vec<_> = numbers.iter().filter(|&&x| x % 2 == 0).collect();
    assert_eq!(e, vec![&2, &4, &6]);
    assert_eq!(evens(&numbers), vec![2, 4, 6]);
}

#[test]
fn filter_predicado() {
    filter_predicate();
}

#[test]
fn iterators_take_skip() {
    let numbers = vec![1, 2, 3, 4, 5];
    let first_two: Vec<_> = numbers.iter().take(2).collect();
    assert_eq!(first_two, vec![&1, &2]);
    let skip_two: Vec<_> = numbers.iter().skip(2).collect();
    assert_eq!(skip_two, vec![&3, &4, &5]);
    let range: Vec<_> = (1..=10).skip(2).take(3).collect();
    assert_eq!(range, vec![3, 4, 5]);
    assert_eq!(take_n(&numbers, 2), vec![1, 2]);
    assert_eq!(skip_n(&numbers, 2), vec![3, 4, 5]);
    assert_eq!(range_skip_take(1, 11, 2, 3), vec![3, 4, 5]);
    assert_eq!(take_n(&numbers, 9), numbers);
    assert_eq!(skip_n(&numbers, 9), Vec::<i32>::new());
}

#[test]
fn iteradores_take_skip() {
    iterators_take_skip();
}

#[test]
fn enumerate_with_indices() {
    let letters = vec!["a", "b", "c"];
    let with_index: Vec<_> = letters.iter().enumerate().map(|(i, &letter)| (i, letter)).collect();
    assert_eq!(with_index, vec![(0, "a"), (1, "b"), (2, "c")]);
    assert_eq!(enumerate(&letters), vec![(0, "a"), (1, "b"), (2, "c")]);
}

#[test]
fn enumerate_con_indices() {
    enumerate_with_indices();
}

#[test]
fn chain_concatenate() {
    let vec1 = vec![1, 2, 3];
    let vec2 = vec![4, 5, 6];
    let combined: Vec<_> = vec1.iter().chain(vec2.iter()).collect();
    assert_eq!(combined, vec![&1, &2, &3, &4, &5, &6]);
    assert_eq!(chain(&vec1, &vec2), vec![1, 2, 3, 4, 5, 6]);
}

#[test]
fn chain_concatenar() {
    chain_concatenate();
}

#[test]
fn zip_pair() {
    let vec1 = vec![1, 2, 3];
    let vec2 = vec!["a", "b", "c"];
    let pairs: Vec<_> = vec1.iter().zip(vec2.iter()).collect();
    assert_eq!(pairs, vec![(&1, &"a"), (&2, &"b"), (&3, &"c")]);
    assert_eq!(zip(&vec1, &vec2), vec![(1, "a"), (2, "b"), (3, "c")]);
    assert_eq!(zip(&vec1[..2], &vec2), vec![(1, "a"), (2, "b")]);
}

#[test]
fn zip_emparejar() {
    zip_pair();
}

#[test]
fn collect_create_collection() {
    let numbers = vec![1, 2, 3];
    let d: Vec<_> = numbers.iter().map(|x| x * 2).collect();
    assert_eq!(d, vec![2, 4, 6]);
    assert_eq!(doubled(&numbers), d);
}

#[test]
fn collect_crear_coleccion() {
    collect_create_collection();
}

#[test]
fn sum_sum_elements() {
    let numbers = vec![1, 2, 3, 4, 5];
    let t: i32 = numbers.iter().sum();
    assert_eq!(t, 15);
    assert_eq!(total(&numbers), 15);
}

#[test]
fn sum_suma_elementos() {
    sum_sum_elements();
}

#[test]
fn fold_accumulator() {
    let numbers = vec![1, 2, 3, 4];
    let p = numbers.iter().fold(1, |acc, &x| acc * x);
    assert_eq!(p, 24);
    assert_eq!(product(&numbers), 24);
    let sum_str = numbers.iter().fold(String::new(), |acc, x| format!("{}{}", acc, x));
    assert_eq!(sum_str, "1234");
}

#[test]
fn fold_acumulador() {
    fold_accumulator();
}

#[test]
fn find_first_element() {
    let numbers = vec![1, 2, 3, 4, 5];
    let first_even = numbers.iter().find(|&&x| x % 2 == 0);
    assert_eq!(first_even, Some(&2));
    let not_found = numbers.iter().find(|&&x| x > 100);
    assert_eq!(not_found, None);
    assert_eq!(find_first_even(&numbers), Some(2));
    assert_eq!(find_first_greater(&numbers, 100), None);
    assert_eq!(find_first_greater(&numbers, 3), Some(4));
}

#[test]
fn find_primer_elemento() {
    find_first_element();
}

#[test]
fn any_all_predicates() {
    let numbers = vec![1, 3, 5, 7];
    assert!(!numbers.iter().any(|x| x % 2 == 0));
    assert!(!any_even(&numbers));
    let e = vec![2, 4, 6];
    assert!(e.iter().all(|x| x % 2 == 0));
    assert!(all_even(&e));
    assert!(!all_even(&numbers));
    assert!(all_even(&[]));
}

#[test]
fn any_all_predicados() {
    any_all_predicates();
}

#[test]
fn count_quantity_elements() {
    let numbers = vec![1, 2, 3, 4, 5];
    let c = numbers.iter().count();
    assert_eq!(c, 5);
    assert_eq!(count(&numbers), 5);
}

#[test]
fn count_cantidad_elementos() {
    count_quantity_elements();
}

#[test]
fn lazy_does_no_work() {
    let numbers = vec![1, 2, 3];
    let _lazy_map = numbers.iter().map(|x| x * 2);
    let result: Vec<_> = numbers.iter().map(|x| x * 2).collect();
    assert_eq!(result, vec![2, 4, 6]);
}

#[test]
fn lazy_no_hace_trabajo() {
    lazy_does_no_work();
}

#[test]
fn lazy_computes_only_necessary() {
    let big_range = 1..1_000_000;
    let first_five: Vec<_> = big_range.take(5).collect();
    assert_eq!(first_five, vec![1, 2, 3, 4, 5]);
    assert_eq!(range_skip_take(1, 1_000_000, 0, 5), vec![1, 2, 3, 4, 5]);
}

#[test]
fn lazy_solo_computa_necesario() {
    lazy_computes_only_necessary();
}

#[test]
fn composition_without_intermediates() {
    let numbers = vec![1, 2, 3, 4, 5];
    let result: Vec<_> = numbers.iter().filter(|&&x| x % 2 == 0).map(|&x| x * 2).collect();
    assert_eq!(result, vec![4, 8]);
    assert_eq!(evens_doubled(&numbers), vec![4, 8]);
}

#[test]
fn composicion_sin_intermedios() {
    composition_without_intermediates();
}

#[test]
fn iterators_loops() {
    let v = vec![1, 2, 3];
    let mut sum1 = 0;
    for x in &v {
        sum1 += x;
    }
    let mut sum2 = 0;
    for x in v.iter() {
        sum2 += x;
    }
    assert_eq!(sum1, 6);
    assert_eq!(sum2, 6);
    assert_eq!(total(&v), 6);
    let v2 = vec![1, 2, 3];
    let mut sum3 = 0;
    for x in v2 {
        sum3 += x;
    }
    assert_eq!(sum3, 6);
    let mut v3 = vec![1, 2, 3];
    for x in &mut v3 {
        *x *= 2;
    }
    assert_eq!(v3, vec![2, 4, 6]);
}

#[test]
fn iteradores_loops() {
    iterators_loops();
}
