use vstd::prelude::*;

verus! {

/// Failures while preparing the backing store at startup.
#[derive(Debug)]
pub enum DBError {
    CreateDatabaseFailed(String),
    CreateTableFailed(String),
}

/// The text `format!("{:?}", s)` gives for a string: the string in double
/// quotes, with quotes, backslashes and unprintable characters escaped.
pub uninterp spec fn debug_text(s: Seq<char>) -> Seq<char>;

/// Characters that `{:?}` writes as they are inside a quoted string.
pub open spec fn is_plain_char(c: char) -> bool {
    ' ' <= c <= '~' && c != '"' && c != '\\'
}

/// Relies on `<str as Debug>::fmt`: the result depends on the characters alone,
/// and printable ASCII other than `"` and `\` is copied between two quotes.
#[verifier::external_body]
fn debug_quoted(s: &str) -> (r: String)
    ensures
        r@ == debug_text(s@),
        (forall|i: int| 0 <= i < s@.len() ==> is_plain_char(#[trigger] s@[i])) ==> r@ == seq!['"']
            + s@ + seq!['"'],
{
    format!("{:?}", s)
}

impl DBError {
    /// The name of the failed step, as the variant is written.
    pub open spec fn step_name(&self) -> Seq<char> {
        match self {
            DBError::CreateDatabaseFailed(_) => "CreateDatabaseFailed"@,
            DBError::CreateTableFailed(_) => "CreateTableFailed"@,
        }
    }

    /// The cause carried by the error.
    pub open spec fn cause(&self) -> Seq<char> {
        match self {
            DBError::CreateDatabaseFailed(m) => m@,
            DBError::CreateTableFailed(m) => m@,
        }
    }

    /// The text shown for this error, given the quoted form of its cause: the
    /// step name, then the quoted cause in parentheses.
    pub fn render(&self, quoted_cause: &str) -> (r: String)
        ensures
            r@ == self.step_name() + "("@ + quoted_cause@ + ")"@,
    {
        let mut r = match self {
            DBError::CreateDatabaseFailed(_) => String::from_str("CreateDatabaseFailed"),
            DBError::CreateTableFailed(_) => String::from_str("CreateTableFailed"),
        };
        r.append("(");
        r.append(quoted_cause);
        r.append(")");
        r
    }

    /// The text shown for this error, as its debug form writes it:
    /// `CreateTableFailed("cause")`.
    pub fn message(&self) -> (r: String)
        ensures
            r@ == self.step_name() + "("@ + debug_text(self.cause()) + ")"@,
    {
        let quoted = match self {
            DBError::CreateDatabaseFailed(m) => debug_quoted(m.as_str()),
            DBError::CreateTableFailed(m) => debug_quoted(m.as_str()),
        };
        self.render(quoted.as_str())
    }
}

/// Failures of a store operation, each carrying a human-readable cause.
#[derive(Debug)]
pub enum StoreError {
    /// A record with the key is already present.
    KeyAlreadyExists(String),
    /// No record holds the key, or the lookup returned nothing.
    KeyNotFound(String),
    /// The backing store could not be reached.
    BackingStoreUnavailable(String),
}

impl StoreError {
    pub open spec fn text(&self) -> Seq<char> {
        match self {
            StoreError::KeyAlreadyExists(m) => m@,
            StoreError::KeyNotFound(m) => m@,
            StoreError::BackingStoreUnavailable(m) => m@,
        }
    }

    pub fn message(&self) -> (r: String)
        ensures
            r@ == self.text(),
    {
        match self {
            StoreError::KeyAlreadyExists(m) => m.clone(),
            StoreError::KeyNotFound(m) => m.clone(),
            StoreError::BackingStoreUnavailable(m) => m.clone(),
        }
    }
}

} // verus!
