use rust_concepts::traits::concepts::{Add, Greeting, Multiply, Operation, Person, Robot};
use rust_concepts::traits::dispatch::{
    create_adder, create_by_type, create_closure, draw_all, with_generic, with_impl_trait,
    with_box_dyn, with_dyn, with_ref, with_where, AnyOperation, Circle, Drawable, SafeConverter,
    Square,
    TripleTransform,
};
use rust_concepts::traits::others::{
    apply, foo_from_a, foo_from_b, Calc, Calculator, Container, Doubler, MyStruct, Stack,
    StringExt, TraitA, TraitB, Wrapper,
};
use rust_concepts::traits::repository::{
    MemoryRepo, MockRepo, RepoError, RepoUser, UserRepo, UserService,
};
use rust_concepts::traits::utilities::{
    save_serializable, AppLogic, ConsoleLogger, DataProcessor, FileLogger, MockDataService,
    NamedUser, Product, RealDataService, User, Validatable,
};

#[test]
fn traits_concepts_index() {
    single_responsibility();
    polymorphism();
    dependency_inversion();
    mocking();
    what_is_a_trait();
    traits_concepts_manual();
    derive();
    blanket_impl();
    traits_as_parameters();
    traits_as_return();
    traits_concepts_info();
    object_safety();
    testing_with_traits();
    multiple_trait_bounds();
    associated_types();
    supertraits();
    extension_traits();
    blanket_implementations();
    impl_for_concrete_types_from_generics();
    ufcs();
    multiple_traits();
}

#[test]
fn single_responsibility() {
    let user = User::new(1, "test@example.com".into());
    assert!(user.validate().is_ok());
    assert_eq!(user.get_email(), "test@example.com");
}

#[test]
fn polymorphism() {
    let user = NamedUser { id: 1, name: "Alice".into() };
    let product = Product { id: 101, title: "Gadget".into() };
    assert_eq!(save_serializable(&user), "User { id: 1, name: 'Alice' }");
    assert_eq!(save_serializable(&product), "Product { id: 101, title: 'Gadget' }");
}

#[test]
fn dependency_inversion() {
    let app_with_console = AppLogic { logger: ConsoleLogger };
    assert_eq!(app_with_console.do_work(), "[Console]: Performing important operation...");
    let app_with_file = AppLogic { logger: FileLogger };
    assert_eq!(app_with_file.do_work(), "[File]: Performing important operation...");
}

#[test]
fn mocking() {
    let real_processor = DataProcessor { service: RealDataService };
    assert_eq!(real_processor.process(1), "Real data for id 1");
    let mock_processor = DataProcessor { service: MockDataService };
    assert_eq!(mock_processor.process(1), "Mock data for id 1");
    assert_eq!(mock_processor.process(4294967295), "Mock data for id 4294967295");
}

#[test]
fn what_is_a_trait() {
    let person = Person { name: "Alice".into() };
    let robot = Robot { model: "R2D2".into() };
    assert_eq!(person.greet(), "Hello, I am Alice");
    assert_eq!(person.formal_greeting(), "Formally: Hello, I am Alice");
    assert_eq!(robot.greet(), "BEEP BOOP. Unit R2D2");
    assert_eq!(robot.formal_greeting(), "Formally: BEEP BOOP. Unit R2D2");
}

#[test]
fn traits_concepts_manual() {
    let add = Add(10);
    let mult = Multiply(3);
    assert_eq!(add.apply(5), 15);
    assert_eq!(mult.apply(5), 15);
}

#[test]
fn derive() {
    #[derive(Debug, Clone, PartialEq, Default)]
    struct Point {
        x: i32,
        y: i32,
    }
    let p = Point::default();
    assert_eq!(p.clone(), Point { x: 0, y: 0 });
    assert_eq!(p.x + p.y, 0);
}

#[test]
fn blanket_impl() {
    fn describe_error<T: std::fmt::Display>(value: T) -> String {
        format!("❌ ERROR: {}", value)
    }
    assert_eq!(describe_error(404), "❌ ERROR: 404");
}

#[test]
fn orphan_rule() {
    let s = String::from("Rust");
    assert_eq!(s.greet(), "Hello, Rust");
}

#[test]
fn traits_as_parameters() {
    assert_eq!(with_impl_trait(Add(10), 5), 15);
    assert_eq!(with_generic(Add(10), 5), 15);
    assert_eq!(with_where(Multiply(2), 5), 10);
    let ref_add = &Add(10);
    assert_eq!(with_ref(ref_add, 5), 15);
    assert_eq!(with_dyn(ref_add, 5), 15);
    let box_add = Box::new(Add(10));
    assert_eq!(with_box_dyn(box_add, 5), 15);
}

#[test]
fn traits_as_return() {
    let op = create_adder();
    assert_eq!(op.apply(5), 105);
    let add = create_by_type("add");
    let mult = create_by_type("mult");
    assert_eq!(add.apply(5), 15);
    assert_eq!(mult.apply(5), 25);
    assert_eq!(create_by_type("other"), AnyOperation::Add(Add(0)));
    let f = create_closure();
    assert_eq!(f.call(10), 20);
}

#[test]
fn traits_concepts_info() {
    let converter = SafeConverter;
    assert_eq!(converter.transform(5), Ok("Safe value: 5".to_string()));
    assert_eq!(converter.transform(-1), Err("Negatives not allowed".to_string()));
    assert_eq!(converter.convert(0), Ok("Safe value: 0".to_string()));
}

#[test]
fn object_safety() {
    let shapes: Vec<Box<dyn Drawable>> = vec![Box::new(Circle), Box::new(Square)];
    let drawn: Vec<String> = draw_all(&shapes);
    assert_eq!(drawn, vec!["○".to_string(), "□".to_string()]);
    assert_eq!(Circle.draw(), "○");
}

#[test]
fn testing_with_traits() {
    let mut real_repo = MemoryRepo::new();
    real_repo.save(RepoUser { id: 1, name: "Alice".into() }).unwrap();
    let service = UserService::new(real_repo);
    assert_eq!(service.get_name(1), Ok("Alice".to_string()));
    assert_eq!(service.get_name(99), Err(RepoError::NotFound));

    let mut mock = MockRepo::new();
    mock.when_find(42, Ok(RepoUser { id: 42, name: "Test User".into() }));
    mock.when_find(99, Err(RepoError::NotFound));
    assert_eq!(mock.save(RepoUser { id: 7, name: "Saved".into() }), Ok(()));
    assert_eq!(mock.save_count(), 1);
    assert_eq!(mock.find(7).map(|u| u.name), Err(RepoError::NotFound));
    let test_service = UserService::new(mock);
    assert_eq!(test_service.get_name(42), Ok("Test User".to_string()));
    assert_eq!(test_service.get_name(99), Err(RepoError::NotFound));
    assert_eq!(test_service.get_name(5), Err(RepoError::NotFound));
}

#[test]
fn multiple_trait_bounds() {
    fn process_and_show<T: Clone + std::fmt::Debug>(x: T) -> String {
        let copy = x.clone();
        format!("Source: {:?}, Copy: {:?}", x, copy)
    }
    assert_eq!(process_and_show(vec![1, 2, 3]), "Source: [1, 2, 3], Copy: [1, 2, 3]");
}

#[test]
fn associated_types() {
    let mut stack: Stack<i32> = Stack { items: vec![] };
    assert_eq!(stack.get(), None);
    stack.put(10);
    stack.put(20);
    assert_eq!(stack.get(), Some(&20));
}

#[test]
fn supertraits() {
    trait Printable: std::fmt::Debug {
        fn print(&self) -> String {
            format!("Printable: {:?}", self)
        }
    }
    #[derive(Debug)]
    struct Document {
        title: String,
    }
    impl Printable for Document {}
    let doc = Document { title: "My Doc".into() };
    assert_eq!(doc.title, "My Doc");
    assert_eq!(doc.print(), "Printable: Document { title: \"My Doc\" }");
}

#[test]
fn extension_traits() {
    assert_eq!("hello".shout(), "HELLO!");
    assert!("are you there?".is_question());
    assert!(!"statement".is_question());
    assert!(!"".is_question());
}

#[test]
fn blanket_implementations() {
    fn describe<T: std::fmt::Debug>(x: &T) -> String {
        format!("I am: {:?}", x)
    }
    assert_eq!(describe(&42), "I am: 42");
}

#[test]
fn impl_for_concrete_types_from_generics() {
    let w_int = Wrapper::new(42);
    assert_eq!(*w_int.get(), 42);
    assert_eq!(w_int.double(), 84);
    assert!(w_int.is_positive());
    let w_str = Wrapper::new(String::from("hello"));
    assert_eq!(w_str.len(), 5);
    assert_eq!(w_str.shout(), "HELLO!");
    let w_vec = Wrapper::new(vec![1, 2, 3]);
    assert_eq!(w_vec.get().len(), 3);
}

#[test]
fn ufcs() {
    let calc = Calc { value: 42 };
    assert_eq!(calc.value(), 42);
    assert_eq!(Calculator::value(&calc), 42);
    assert_eq!(<Calc as Calculator>::add(10, 20), 30);
    let values = vec![1, 2, 3, 4, 5];
    assert_eq!(apply::<Doubler>(values), vec![2, 4, 6, 8, 10]);
}

#[test]
fn multiple_traits() {
    let s = MyStruct;
    assert_eq!(TraitA::foo(&s), "I come from TraitA");
    assert_eq!(TraitB::foo(&s), "I come from TraitB");
    assert_eq!(foo_from_a(&s), "I come from TraitA");
    assert_eq!(foo_from_b(&s), "I come from TraitB");
}
