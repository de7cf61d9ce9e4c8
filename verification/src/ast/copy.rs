//! The two `COPY` statements and their options.

use vstd::prelude::*;
use vstd::string::StringExecFns;
use crate::parser::token::Token;

verus! {

/// The name of a table: the table, and the database and catalog where they
/// are written.
#[derive(Clone, Debug, PartialEq, Eq)]
pub struct TableIdentifier {
    pub catalog: Option<String>,
    pub database: Option<String>,
    pub table: String,
}

impl TableIdentifier {
    /// The table named by one to three names: the last is the table, the
    /// one before it the database, the first of three the catalog.
    pub fn from_tuple(first: String, second: Option<String>, third: Option<String>) -> (table:
        TableIdentifier)
        ensures
            table == (match (second, third) {
                (Some(b), Some(c)) => TableIdentifier {
                    catalog: Some(first),
                    database: Some(b),
                    table: c,
                },
                (Some(b), None) => TableIdentifier {
                    catalog: None,
                    database: Some(first),
                    table: b,
                },
                (None, _) => TableIdentifier { catalog: None, database: None, table: first },
            }),
    {
        match (second, third) {
            (Some(b), Some(c)) => TableIdentifier {
                catalog: Some(first),
                database: Some(b),
                table: c,
            },
            (Some(b), None) => TableIdentifier { catalog: None, database: Some(first), table: b },
            (None, _) => TableIdentifier { catalog: None, database: None, table: first },
        }
    }
}

/// Where files lie: in a stage, or at an address.
#[derive(Clone, Debug, PartialEq, Eq)]
pub enum FileLocation {
    Stage(String),
    Uri(String),
}

/// One option of a file format: its name and its value as written.
#[derive(Clone, Debug, PartialEq, Eq)]
pub struct FormatOption {
    pub name: String,
    pub value: String,
}

#[derive(Clone, Debug, PartialEq, Eq)]
pub enum CopyIntoTableSource {
    Location(FileLocation),
    /// A statement between parentheses, as its tokens.
    Query(Vec<Token>),
}

#[derive(Clone, Debug, PartialEq, Eq)]
pub enum CopyIntoLocationSource {
    Table(TableIdentifier),
    /// A statement between parentheses, as its tokens.
    Query(Vec<Token>),
}

#[derive(Clone, Debug, PartialEq, Eq)]
pub enum CopyIntoTableOption {
    Files(Vec<String>),
    Pattern(String),
    FileFormat(Vec<FormatOption>),
    ValidationMode(String),
    SizeLimit(usize),
    MaxFiles(usize),
    SplitSize(usize),
    Purge(bool),
    Force(bool),
    DisableVariantCheck(bool),
    ReturnFailedOnly(bool),
    OnError(String),
}

#[derive(Clone, Debug, PartialEq, Eq)]
pub enum CopyIntoLocationOption {
    FileFormat(Vec<FormatOption>),
    MaxFileSize(usize),
    Single(bool),
}

#[derive(Clone, Debug, PartialEq, Eq)]
pub struct CopyIntoTableStmt {
    pub hints: Option<String>,
    pub src: CopyIntoTableSource,
    pub dst: TableIdentifier,
    pub dst_columns: Option<Vec<String>>,
    pub files: Option<Vec<String>>,
    pub pattern: Option<String>,
    pub file_format: Vec<FormatOption>,
    pub validation_mode: String,
    pub size_limit: usize,
    pub max_files: usize,
    pub split_size: usize,
    pub purge: bool,
    pub force: bool,
    pub disable_variant_check: bool,
    pub return_failed_only: bool,
    pub on_error: String,
}

#[derive(Clone, Debug, PartialEq, Eq)]
pub struct CopyIntoLocationStmt {
    pub hints: Option<String>,
    pub src: CopyIntoLocationSource,
    pub dst: FileLocation,
    pub file_format: Vec<FormatOption>,
    pub single: bool,
    pub max_file_size: usize,
}

#[derive(Clone, Debug, PartialEq, Eq)]
pub enum Statement {
    CopyIntoTable(CopyIntoTableStmt),
    CopyIntoLocation(CopyIntoLocationStmt),
}

/// An option of a copy into a table, by what it holds.
pub enum TableOptionView {
    Files(Seq<String>),
    Pattern(String),
    FileFormat(Seq<FormatOption>),
    ValidationMode(String),
    SizeLimit(usize),
    MaxFiles(usize),
    SplitSize(usize),
    Purge(bool),
    Force(bool),
    DisableVariantCheck(bool),
    ReturnFailedOnly(bool),
    OnError(String),
}

impl View for CopyIntoTableOption {
    type V = TableOptionView;

    open spec fn view(&self) -> TableOptionView {
        match self {
            CopyIntoTableOption::Files(v) => TableOptionView::Files(v@),
            CopyIntoTableOption::Pattern(v) => TableOptionView::Pattern(*v),
            CopyIntoTableOption::FileFormat(v) => TableOptionView::FileFormat(v@),
            CopyIntoTableOption::ValidationMode(v) => TableOptionView::ValidationMode(*v),
            CopyIntoTableOption::SizeLimit(v) => TableOptionView::SizeLimit(*v),
            CopyIntoTableOption::MaxFiles(v) => TableOptionView::MaxFiles(*v),
            CopyIntoTableOption::SplitSize(v) => TableOptionView::SplitSize(*v),
            CopyIntoTableOption::Purge(v) => TableOptionView::Purge(*v),
            CopyIntoTableOption::Force(v) => TableOptionView::Force(*v),
            CopyIntoTableOption::DisableVariantCheck(v) => TableOptionView::DisableVariantCheck(*v),
            CopyIntoTableOption::ReturnFailedOnly(v) => TableOptionView::ReturnFailedOnly(*v),
            CopyIntoTableOption::OnError(v) => TableOptionView::OnError(*v),
        }
    }
}

/// An option of a copy into a location, by what it holds.
pub enum LocationOptionView {
    FileFormat(Seq<FormatOption>),
    MaxFileSize(usize),
    Single(bool),
}

impl View for CopyIntoLocationOption {
    type V = LocationOptionView;

    open spec fn view(&self) -> LocationOptionView {
        match self {
            CopyIntoLocationOption::FileFormat(v) => LocationOptionView::FileFormat(v@),
            CopyIntoLocationOption::MaxFileSize(v) => LocationOptionView::MaxFileSize(*v),
            CopyIntoLocationOption::Single(v) => LocationOptionView::Single(*v),
        }
    }
}

/// The source of a copy into a table, by what it holds.
pub enum TableSourceView {
    Location(FileLocation),
    Query(Seq<Token>),
}

impl View for CopyIntoTableSource {
    type V = TableSourceView;

    open spec fn view(&self) -> TableSourceView {
        match self {
            CopyIntoTableSource::Location(l) => TableSourceView::Location(*l),
            CopyIntoTableSource::Query(q) => TableSourceView::Query(q@),
        }
    }
}

/// The source of a copy into a location, by what it holds.
pub enum LocationSourceView {
    Table(TableIdentifier),
    Query(Seq<Token>),
}

impl View for CopyIntoLocationSource {
    type V = LocationSourceView;

    open spec fn view(&self) -> LocationSourceView {
        match self {
            CopyIntoLocationSource::Table(t) => LocationSourceView::Table(*t),
            CopyIntoLocationSource::Query(q) => LocationSourceView::Query(q@),
        }
    }
}

/// A list that may be absent, by what it holds.
pub open spec fn opt_list(list: Option<Vec<String>>) -> Option<Seq<String>> {
    match list {
        Some(v) => Some(v@),
        None => None,
    }
}

/// A copy into a table, by what it holds.
pub struct TableStmtView {
    pub hints: Option<String>,
    pub src: TableSourceView,
    pub dst: TableIdentifier,
    pub dst_columns: Option<Seq<String>>,
    pub files: Option<Seq<String>>,
    pub pattern: Option<String>,
    pub file_format: Seq<FormatOption>,
    pub validation_mode: Seq<char>,
    pub size_limit: usize,
    pub max_files: usize,
    pub split_size: usize,
    pub purge: bool,
    pub force: bool,
    pub disable_variant_check: bool,
    pub return_failed_only: bool,
    pub on_error: Seq<char>,
}

impl View for CopyIntoTableStmt {
    type V = TableStmtView;

    open spec fn view(&self) -> TableStmtView {
        TableStmtView {
            hints: self.hints,
            src: self.src@,
            dst: self.dst,
            dst_columns: opt_list(self.dst_columns),
            files: opt_list(self.files),
            pattern: self.pattern,
            file_format: self.file_format@,
            validation_mode: self.validation_mode@,
            size_limit: self.size_limit,
            max_files: self.max_files,
            split_size: self.split_size,
            purge: self.purge,
            force: self.force,
            disable_variant_check: self.disable_variant_check,
            return_failed_only: self.return_failed_only,
            on_error: self.on_error@,
        }
    }
}

/// A copy into a location, by what it holds.
pub struct LocationStmtView {
    pub hints: Option<String>,
    pub src: LocationSourceView,
    pub dst: FileLocation,
    pub file_format: Seq<FormatOption>,
    pub single: bool,
    pub max_file_size: usize,
}

impl View for CopyIntoLocationStmt {
    type V = LocationStmtView;

    open spec fn view(&self) -> LocationStmtView {
        LocationStmtView {
            hints: self.hints,
            src: self.src@,
            dst: self.dst,
            file_format: self.file_format@,
            single: self.single,
            max_file_size: self.max_file_size,
        }
    }
}

/// A statement, by what it holds.
pub enum StatementView {
    CopyIntoTable(TableStmtView),
    CopyIntoLocation(LocationStmtView),
}

impl View for Statement {
    type V = StatementView;

    open spec fn view(&self) -> StatementView {
        match self {
            Statement::CopyIntoTable(s) => StatementView::CopyIntoTable(s@),
            Statement::CopyIntoLocation(s) => StatementView::CopyIntoLocation(s@),
        }
    }
}

impl TableStmtView {
    /// A copy into `dst` from `src` with every option at its default: no
    /// files named, no limits, nothing purged or forced, errors abort.
    pub open spec fn plain(
        hints: Option<String>,
        src: TableSourceView,
        dst: TableIdentifier,
        dst_columns: Option<Seq<String>>,
    ) -> TableStmtView {
        TableStmtView {
            hints,
            src,
            dst,
            dst_columns,
            files: None,
            pattern: None,
            file_format: Seq::empty(),
            validation_mode: Seq::empty(),
            size_limit: 0,
            max_files: 0,
            split_size: 0,
            purge: false,
            force: false,
            disable_variant_check: false,
            return_failed_only: false,
            on_error: "abort"@,
        }
    }

    /// The statement with one option set. An option given again replaces
    /// what was given before.
    pub open spec fn with_option(self, opt: TableOptionView) -> TableStmtView {
        match opt {
            TableOptionView::Files(v) => TableStmtView { files: Some(v), ..self },
            TableOptionView::Pattern(v) => TableStmtView { pattern: Some(v), ..self },
            TableOptionView::FileFormat(v) => TableStmtView { file_format: v, ..self },
            TableOptionView::ValidationMode(v) => TableStmtView { validation_mode: v@, ..self },
            TableOptionView::SizeLimit(v) => TableStmtView { size_limit: v, ..self },
            TableOptionView::MaxFiles(v) => TableStmtView { max_files: v, ..self },
            TableOptionView::SplitSize(v) => TableStmtView { split_size: v, ..self },
            TableOptionView::Purge(v) => TableStmtView { purge: v, ..self },
            TableOptionView::Force(v) => TableStmtView { force: v, ..self },
            TableOptionView::DisableVariantCheck(v) => TableStmtView {
                disable_variant_check: v,
                ..self
            },
            TableOptionView::ReturnFailedOnly(v) => TableStmtView { return_failed_only: v, ..self },
            TableOptionView::OnError(v) => TableStmtView { on_error: v@, ..self },
        }
    }

    /// The statement with a list of options set, one after the other.
    pub open spec fn with_options(self, opts: Seq<TableOptionView>) -> TableStmtView
        decreases opts.len(),
    {
        if opts.len() == 0 {
            self
        } else {
            self.with_options(opts.drop_last()).with_option(opts.last())
        }
    }
}

impl LocationStmtView {
    /// A copy from `src` into `dst` with every option at its default.
    pub open spec fn plain(hints: Option<String>, src: LocationSourceView, dst: FileLocation) -> LocationStmtView {
        LocationStmtView {
            hints,
            src,
            dst,
            file_format: Seq::empty(),
            single: false,
            max_file_size: 0,
        }
    }

    /// The statement with one option set.
    pub open spec fn with_option(self, opt: LocationOptionView) -> LocationStmtView {
        match opt {
            LocationOptionView::FileFormat(v) => LocationStmtView { file_format: v, ..self },
            LocationOptionView::MaxFileSize(v) => LocationStmtView { max_file_size: v, ..self },
            LocationOptionView::Single(v) => LocationStmtView { single: v, ..self },
        }
    }

    /// The statement with a list of options set, one after the other.
    pub open spec fn with_options(self, opts: Seq<LocationOptionView>) -> LocationStmtView
        decreases opts.len(),
    {
        if opts.len() == 0 {
            self
        } else {
            self.with_options(opts.drop_last()).with_option(opts.last())
        }
    }
}

impl CopyIntoTableStmt {
    /// A copy into `dst` from `src` with every option at its default.
    pub fn new(
        hints: Option<String>,
        src: CopyIntoTableSource,
        dst: TableIdentifier,
        dst_columns: Option<Vec<String>>,
    ) -> (stmt: CopyIntoTableStmt)
        ensures
            stmt@ == TableStmtView::plain(hints, src@, dst, opt_list(dst_columns)),
    {
        CopyIntoTableStmt {
            hints,
            src,
            dst,
            dst_columns,
            files: None,
            pattern: None,
            file_format: Vec::new(),
            validation_mode: String::new(),
            size_limit: 0,
            max_files: 0,
            split_size: 0,
            purge: false,
            force: false,
            disable_variant_check: false,
            on_error: String::from_str("abort"),
            return_failed_only: false,
        }
    }

    /// Sets one option.
    pub fn apply_option(&mut self, opt: CopyIntoTableOption)
        ensures
            final(self)@ == old(self)@.with_option(opt@),
    {
        match opt {
            CopyIntoTableOption::Files(v) => {
                self.files = Some(v);
            },
            CopyIntoTableOption::Pattern(v) => {
                self.pattern = Some(v);
            },
            CopyIntoTableOption::FileFormat(v) => {
                self.file_format = v;
            },
            CopyIntoTableOption::ValidationMode(v) => {
                self.validation_mode = v;
            },
            CopyIntoTableOption::SizeLimit(v) => {
                self.size_limit = v;
            },
            CopyIntoTableOption::MaxFiles(v) => {
                self.max_files = v;
            },
            CopyIntoTableOption::SplitSize(v) => {
                self.split_size = v;
            },
            CopyIntoTableOption::Purge(v) => {
                self.purge = v;
            },
            CopyIntoTableOption::Force(v) => {
                self.force = v;
            },
            CopyIntoTableOption::DisableVariantCheck(v) => {
                self.disable_variant_check = v;
            },
            CopyIntoTableOption::ReturnFailedOnly(v) => {
                self.return_failed_only = v;
            },
            CopyIntoTableOption::OnError(v) => {
                self.on_error = v;
            },
        }
    }
}

impl CopyIntoLocationStmt {
    /// A copy from `src` into `dst` with every option at its default.
    pub fn new(hints: Option<String>, src: CopyIntoLocationSource, dst: FileLocation) -> (stmt:
        CopyIntoLocationStmt)
        ensures
            stmt@ == LocationStmtView::plain(hints, src@, dst),
    {
        CopyIntoLocationStmt {
            hints,
            src,
            dst,
            file_format: Vec::new(),
            single: false,
            max_file_size: 0,
        }
    }

    /// Sets one option.
    pub fn apply_option(&mut self, opt: CopyIntoLocationOption)
        ensures
            final(self)@ == old(self)@.with_option(opt@),
    {
        match opt {
            CopyIntoLocationOption::FileFormat(v) => {
                self.file_format = v;
            },
            CopyIntoLocationOption::MaxFileSize(v) => {
                self.max_file_size = v;
            },
            CopyIntoLocationOption::Single(v) => {
                self.single = v;
            },
        }
    }
}

} // verus!
