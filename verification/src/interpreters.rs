//! What the interpreters of statements decide and lay out, between asking
//! the catalog or the meta store and handing rows back.

use vstd::prelude::*;
use vstd::string::StringExecFns;
use vstd::string::StringSliceAdditionalSpecFns;
use vstd::string::StrSliceExecFns;
use vstd::utf8::encode_utf8;

verus! {

/// How a catalog is backed. Storage parameters are held as they are shown.
#[derive(Clone, Debug, PartialEq, Eq)]
pub enum CatalogOption {
    Default,
    Hive { address: String, storage_params: String },
    Iceberg { storage_params: String },
}

impl CatalogOption {
    /// The name of the kind of catalog.
    pub open spec fn kind(&self) -> Seq<char> {
        match self {
            CatalogOption::Default => "default"@,
            CatalogOption::Hive { .. } => "hive"@,
            CatalogOption::Iceberg { .. } => "iceberg"@,
        }
    }

    /// What is shown of the catalog's options.
    pub open spec fn shown(&self) -> Seq<char> {
        match self {
            CatalogOption::Default => Seq::empty(),
            CatalogOption::Hive { address, storage_params } => "METASTORE ADDRESS\n"@ + address@
                + "\nSTORAGE PARAMS\n"@ + storage_params@,
            CatalogOption::Iceberg { storage_params } => "STORAGE PARAMS\n"@ + storage_params@,
        }
    }
}

/// The row that `SHOW CREATE CATALOG` returns: the catalog's name, its kind
/// and its options, each as the bytes of its text.
pub fn show_create_catalog_row(name: &str, option: &CatalogOption) -> (row: (
    Vec<u8>,
    Vec<u8>,
    Vec<u8>,
))
    ensures
        row.0@ == name.spec_bytes(),
        row.1@ == encode_utf8(option.kind()),
        row.2@ == encode_utf8(option.shown()),
{
    let (catalog_type, shown) = match option {
        CatalogOption::Default => (String::from_str("default"), String::new()),
        CatalogOption::Hive { address, storage_params } => {
            let mut text: String = String::from_str("METASTORE ADDRESS\n");
            text.append(address.as_str());
            text.append("\nSTORAGE PARAMS\n");
            text.append(storage_params.as_str());
            (String::from_str("hive"), text)
        },
        CatalogOption::Iceberg { storage_params } => {
            let mut text: String = String::from_str("STORAGE PARAMS\n");
            text.append(storage_params.as_str());
            (String::from_str("iceberg"), text)
        },
    };
    (name.as_bytes_vec(), catalog_type.as_str().as_bytes_vec(), shown.as_str().as_bytes_vec())
}

/// The row that `DESC CONNECTION` returns: the connection's name, the type
/// of its storage and its parameters as shown, each as the bytes of its
/// text.
pub fn desc_connection_row(name: &str, storage_type: &str, params_shown: &str) -> (row: (
    Vec<u8>,
    Vec<u8>,
    Vec<u8>,
))
    ensures
        row.0@ == name.spec_bytes(),
        row.1@ == storage_type.spec_bytes(),
        row.2@ == params_shown.spec_bytes(),
{
    (name.as_bytes_vec(), storage_type.as_bytes_vec(), params_shown.as_bytes_vec())
}

/// Whether a statement is a repetition: it carries a label, and the meta
/// store holds something under that label. `stored` says what a lookup of
/// the label found; it is not looked at where there is no label.
pub fn check_deduplicate_label(label: &Option<String>, stored: bool) -> (duplicate: bool)
    ensures
        duplicate == (label is Some && stored),
{
    match label {
        None => false,
        Some(_) => stored,
    }
}

/// A condition on rows.
#[derive(Debug, PartialEq, Eq)]
pub enum Expr {
    /// The value of a column.
    Column(String),
    /// A condition, negated.
    Not(Box<Expr>),
    /// Any other expression, as written.
    Other(String),
}

impl Expr {
    /// A copy of the expression.
    pub fn duplicate(&self) -> (copy: Expr)
        ensures
            copy == *self,
        decreases self,
    {
        match self {
            Expr::Column(c) => Expr::Column(c.clone()),
            Expr::Not(inner) => Expr::Not(Box::new(inner.duplicate())),
            Expr::Other(text) => Expr::Other(text.clone()),
        }
    }
}

/// A filter for the storage to apply, and its negation.
#[derive(Debug, PartialEq, Eq)]
pub struct Filters {
    pub filter: Expr,
    pub inverted_filter: Expr,
}

/// The filters pushed down to the storage for a condition: the condition,
/// and the condition negated.
pub fn create_push_down_filters(filter: Expr) -> (filters: Filters)
    ensures
        filters.filter == filter,
        filters.inverted_filter == Expr::Not(Box::new(filter)),
{
    let inverted = Expr::Not(Box::new(filter.duplicate()));
    Filters { filter, inverted_filter: inverted }
}

} // verus!
