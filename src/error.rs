//! Failure kinds raised at the boundary and the host category of each.
use vstd::prelude::*;

verus! {

/// What the database engine reported.
#[derive(Debug, Clone, Copy, PartialEq, Eq, Structural)]
pub enum EngineError {
    /// No such record.
    NotFound,
    /// The database could not be opened.
    OpenFailed,
    /// Any other engine failure.
    Other,
}

/// The logical role of a handle, named when it is missing.
#[derive(Debug, Clone, Copy, PartialEq, Eq, Structural)]
pub enum HandleRole {
    Database,
    Transaction,
    Filter,
}

impl HandleRole {
    /// The short name of the role, as it appears in messages.
    pub fn name(&self) -> (r: &'static str)
        ensures
            r@ == role_name(*self),
    {
        match self {
            HandleRole::Database => "ndb",
            HandleRole::Transaction => "transaction",
            HandleRole::Filter => "filter",
        }
    }
}

pub open spec fn role_name(role: HandleRole) -> Seq<char> {
    match role {
        HandleRole::Database => "ndb"@,
        HandleRole::Transaction => "transaction"@,
        HandleRole::Filter => "filter"@,
    }
}

/// Every failure that can occur inside a boundary-callable operation.
#[derive(Debug, Clone, PartialEq, Eq)]
pub enum BoundaryError {
    /// The interop layer itself failed.
    Jni(String),
    /// The database engine failed.
    Nostrdb(EngineError),
    /// A fixed-size id or pubkey input did not hold 32 bytes; holds the length given.
    InvalidIdLength(usize),
    /// A required handle was zero.
    NullPointer(HandleRole),
    /// A text input was not valid text.
    InvalidUtf8,
    /// Structured-to-bytes conversion failed.
    Json,
    /// Filter construction received invalid input.
    Filter(String),
    /// An invariant the runtime could not guarantee.
    InvalidState(String),
    /// An unexpected internal fault, caught before it crossed the boundary.
    Panic(String),
}

/// The host error category that an error is raised as.
#[derive(Debug, Clone, Copy, PartialEq, Eq, Structural)]
pub enum Category {
    Runtime,
    NoSuchElement,
    Io,
    Library,
    IllegalArgument,
    NullPointer,
    IllegalState,
}

pub open spec fn category_of(e: BoundaryError) -> Category {
    match e {
        BoundaryError::Jni(_) => Category::Runtime,
        BoundaryError::Nostrdb(EngineError::NotFound) => Category::NoSuchElement,
        BoundaryError::Nostrdb(EngineError::OpenFailed) => Category::Io,
        BoundaryError::Nostrdb(EngineError::Other) => Category::Library,
        BoundaryError::InvalidIdLength(_) => Category::IllegalArgument,
        BoundaryError::NullPointer(_) => Category::NullPointer,
        BoundaryError::InvalidUtf8 => Category::IllegalArgument,
        BoundaryError::Json => Category::Library,
        BoundaryError::Filter(_) => Category::Library,
        BoundaryError::InvalidState(_) => Category::IllegalState,
        BoundaryError::Panic(_) => Category::Runtime,
    }
}

pub open spec fn class_name(c: Category) -> Seq<char> {
    match c {
        Category::Runtime => "java/lang/RuntimeException"@,
        Category::NoSuchElement => "java/util/NoSuchElementException"@,
        Category::Io => "java/io/IOException"@,
        Category::Library => "xyz/tcheeric/nostrdb/NostrdbException"@,
        Category::IllegalArgument => "java/lang/IllegalArgumentException"@,
        Category::NullPointer => "java/lang/NullPointerException"@,
        Category::IllegalState => "java/lang/IllegalStateException"@,
    }
}

impl Category {
    /// The host class that errors of this category are raised as.
    pub fn class_name(&self) -> (r: &'static str)
        ensures
            r@ == class_name(*self),
    {
        match self {
            Category::Runtime => "java/lang/RuntimeException",
            Category::NoSuchElement => "java/util/NoSuchElementException",
            Category::Io => "java/io/IOException",
            Category::Library => "xyz/tcheeric/nostrdb/NostrdbException",
            Category::IllegalArgument => "java/lang/IllegalArgumentException",
            Category::NullPointer => "java/lang/NullPointerException",
            Category::IllegalState => "java/lang/IllegalStateException",
        }
    }
}

impl BoundaryError {
    /// The category this error is raised as at the boundary.
    pub fn category(&self) -> (r: Category)
        ensures
            r == category_of(*self),
    {
        match self {
            BoundaryError::Jni(_) => Category::Runtime,
            BoundaryError::Nostrdb(EngineError::NotFound) => Category::NoSuchElement,
            BoundaryError::Nostrdb(EngineError::OpenFailed) => Category::Io,
            BoundaryError::Nostrdb(EngineError::Other) => Category::Library,
            BoundaryError::InvalidIdLength(_) => Category::IllegalArgument,
            BoundaryError::NullPointer(_) => Category::NullPointer,
            BoundaryError::InvalidUtf8 => Category::IllegalArgument,
            BoundaryError::Json => Category::Library,
            BoundaryError::Filter(_) => Category::Library,
            BoundaryError::InvalidState(_) => Category::IllegalState,
            BoundaryError::Panic(_) => Category::Runtime,
        }
    }

    /// The name of the host exception class this error is raised as.
    pub fn exception_class(&self) -> (r: &'static str)
        ensures
            r@ == class_name(category_of(*self)),
    {
        self.category().class_name()
    }
}

} // verus!
