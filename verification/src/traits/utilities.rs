//! Single responsibility, polymorphism over a capability, dependency
//! inversion and substitution of a service by a test double.
use vstd::prelude::*;
use vstd::string::*;
use crate::text::{decimal, push_decimal};

verus! {

/// Something that can check itself.
pub trait Validatable {
    /// The validation outcome.
    spec fn valid(&self) -> bool;

    fn validate(&self) -> (r: Result<(), Vec<String>>)
        ensures
            r is Ok <==> self.valid(),
    ;
}

/// A user known by id and e-mail.
pub struct User {
    pub id: u32,
    pub email: String,
}

impl User {
    pub fn new(id: u32, email: String) -> (u: Self)
        ensures
            u.id == id,
            u.email@ == email@,
    {
        User { id, email }
    }

    pub fn get_email(&self) -> (r: &str)
        ensures
            r@ == self.email@,
    {
        self.email.as_str()
    }
}

impl Validatable for User {
    /// Every user is valid.
    open spec fn valid(&self) -> bool {
        true
    }

    fn validate(&self) -> (r: Result<(), Vec<String>>) {
        Ok(())
    }
}

/// Something that renders itself as text.
pub trait Serializable {
    spec fn serialized(&self) -> Seq<char>;

    fn serialize(&self) -> (r: String)
        ensures
            r@ == self.serialized(),
    ;
}

/// A user with a name.
pub struct NamedUser {
    pub id: u32,
    pub name: String,
}

/// A product with a title.
pub struct Product {
    pub id: u32,
    pub title: String,
}

impl Serializable for NamedUser {
    /// `User { id: <id>, name: '<name>' }`.
    open spec fn serialized(&self) -> Seq<char> {
        "User { id: "@ + decimal(self.id as nat) + ", name: '"@ + self.name@ + "' }"@
    }

    fn serialize(&self) -> (r: String) {
        let mut r = String::from_str("User { id: ");
        push_decimal(&mut r, self.id as u64);
        r.append(", name: '");
        r.append(self.name.as_str());
        r.append("' }");
        r
    }
}

impl Serializable for Product {
    /// `Product { id: <id>, title: '<title>' }`.
    open spec fn serialized(&self) -> Seq<char> {
        "Product { id: "@ + decimal(self.id as nat) + ", title: '"@ + self.title@ + "' }"@
    }

    fn serialize(&self) -> (r: String) {
        let mut r = String::from_str("Product { id: ");
        push_decimal(&mut r, self.id as u64);
        r.append(", title: '");
        r.append(self.title.as_str());
        r.append("' }");
        r
    }
}

/// Works for any serializable item.
pub fn save_serializable<T: Serializable>(item: &T) -> (r: String)
    ensures
        r@ == item.serialized(),
{
    item.serialize()
}

/// The abstraction the business logic depends on.
pub trait Logger {
    spec fn logged(&self, message: Seq<char>) -> Seq<char>;

    fn log(&self, message: &str) -> (r: String)
        ensures
            r@ == self.logged(message@),
    ;
}

/// Business logic that logs through whatever logger it is given.
pub struct AppLogic<L: Logger> {
    pub logger: L,
}

impl<L: Logger> AppLogic<L> {
    pub fn do_work(&self) -> (r: String)
        ensures
            r@ == self.logger.logged("Performing important operation..."@),
    {
        self.logger.log("Performing important operation...")
    }
}

/// Logs with a `[Console]: ` prefix.
pub struct ConsoleLogger;

/// Logs with a `[File]: ` prefix.
pub struct FileLogger;

impl Logger for ConsoleLogger {
    open spec fn logged(&self, message: Seq<char>) -> Seq<char> {
        "[Console]: "@ + message
    }

    fn log(&self, message: &str) -> (r: String) {
        let mut r = String::from_str("[Console]: ");
        r.append(message);
        r
    }
}

impl Logger for FileLogger {
    open spec fn logged(&self, message: Seq<char>) -> Seq<char> {
        "[File]: "@ + message
    }

    fn log(&self, message: &str) -> (r: String) {
        let mut r = String::from_str("[File]: ");
        r.append(message);
        r
    }
}

/// A source of data by id.
pub trait DataService {
    spec fn data_for(&self, id: u32) -> Seq<char>;

    fn get_data(&self, id: u32) -> (r: String)
        ensures
            r@ == self.data_for(id),
    ;
}

/// The production service.
pub struct RealDataService;

/// A stand-in service for tests.
pub struct MockDataService;

impl DataService for RealDataService {
    open spec fn data_for(&self, id: u32) -> Seq<char> {
        "Real data for id "@ + decimal(id as nat)
    }

    fn get_data(&self, id: u32) -> (r: String) {
        let mut r = String::from_str("Real data for id ");
        push_decimal(&mut r, id as u64);
        r
    }
}

impl DataService for MockDataService {
    open spec fn data_for(&self, id: u32) -> Seq<char> {
        "Mock data for id "@ + decimal(id as nat)
    }

    fn get_data(&self, id: u32) -> (r: String) {
        let mut r = String::from_str("Mock data for id ");
        push_decimal(&mut r, id as u64);
        r
    }
}

/// Processing that depends only on the `DataService` contract.
pub struct DataProcessor<D: DataService> {
    pub service: D,
}

impl<D: DataService> DataProcessor<D> {
    pub fn process(&self, id: u32) -> (r: String)
        ensures
            r@ == self.service.data_for(id),
    {
        self.service.get_data(id)
    }
}

} // verus!
