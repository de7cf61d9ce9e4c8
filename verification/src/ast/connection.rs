//! The statements on connections, and how they are written out.

use vstd::prelude::*;
use vstd::string::StringExecFns;
use crate::base::{mask_string, maskable, masked, push_char};
use crate::params::SortedParams;

verus! {

/// A name as it was written: the text, and the quote around it if any.
#[derive(Clone, Debug, PartialEq, Eq)]
pub struct Identifier {
    pub name: String,
    pub quote: Option<char>,
}

impl Identifier {
    pub fn from_name(name: String) -> (ident: Identifier)
        ensures
            ident.name == name,
            ident.quote is None,
    {
        Identifier { name, quote: None }
    }

    /// The name as written: between its quotes, where it has them.
    pub open spec fn text(&self) -> Seq<char> {
        match self.quote {
            Some(q) => seq![q] + self.name@ + seq![q],
            None => self.name@,
        }
    }

    pub fn to_string(&self) -> (out: String)
        ensures
            out@ == self.text(),
    {
        match self.quote {
            Some(q) => {
                let mut out: String = String::new();
                push_char(&mut out, q);
                out.append(self.name.as_str());
                push_char(&mut out, q);
                proof {
                    assert(out@ =~= seq![q] + self.name@ + seq![q]);
                }
                out
            },
            None => self.name.clone(),
        }
    }
}

#[derive(Clone, Debug, PartialEq, Eq)]
pub struct CreateConnectionStmt {
    pub if_not_exists: bool,
    pub name: Identifier,
    pub storage_type: String,
    /// The parameters of the storage, in the order of their names.
    pub storage_params: SortedParams,
}

#[derive(Clone, Debug, PartialEq, Eq)]
pub struct DropConnectionStmt {
    pub if_exists: bool,
    pub name: Identifier,
}

#[derive(Clone, Debug, PartialEq, Eq)]
pub struct DescribeConnectionStmt {
    pub name: Identifier,
}

#[derive(Debug, Clone, Copy, PartialEq, Eq, Structural)]
pub struct ShowConnectionsStmt {}

/// The parameters written out one after the other, each as its key, an
/// equals sign and its value, the value masked but for its last three bytes.
pub open spec fn params_text(params: Seq<(String, String)>) -> Seq<char>
    decreases params.len(),
{
    if params.len() == 0 {
        Seq::empty()
    } else {
        let n = params.len() - 1;
        params_text(params.take(n)) + params[n].0@ + " = "@ + masked(params[n].1@, 3)
    }
}

/// Every value can be masked.
pub open spec fn params_maskable(params: Seq<(String, String)>) -> bool {
    forall|i: int| 0 <= i < params.len() ==> maskable((#[trigger] params[i]).1@, 3)
}

impl CreateConnectionStmt {
    /// The statement as text.
    pub open spec fn text(&self) -> Seq<char> {
        "CREATE CONNECTION "@ + (if self.if_not_exists {
            "IF NOT EXISTS "@
        } else {
            Seq::empty()
        }) + self.name.text() + " "@ + "STORAGE_TYPE = "@ + self.storage_type@ + " "@ + params_text(
            self.storage_params.entries(),
        )
    }

    /// Writes the statement out. The values of the parameters are secrets:
    /// they are masked.
    pub fn to_string(&self) -> (out: String)
        requires
            params_maskable(self.storage_params.entries()),
        ensures
            out@ == self.text(),
    {
        let mut out: String = String::from_str("CREATE CONNECTION ");
        if self.if_not_exists {
            out.append("IF NOT EXISTS ");
        }
        let name: String = self.name.to_string();
        out.append(name.as_str());
        out.append(" ");
        out.append("STORAGE_TYPE = ");
        out.append(self.storage_type.as_str());
        out.append(" ");
        let ghost head = out@;
        proof {
            assert(head =~= "CREATE CONNECTION "@ + (if self.if_not_exists {
                "IF NOT EXISTS "@
            } else {
                Seq::empty()
            }) + self.name.text() + " "@ + "STORAGE_TYPE = "@ + self.storage_type@ + " "@);
            assert(out@ =~= head + params_text(self.storage_params.entries().take(0)));
        }
        let params: &Vec<(String, String)> = self.storage_params.as_vec();
        let mut i: usize = 0;
        while i < params.len()
            invariant
                i <= params.len(),
                params_maskable(params@),
                out@ == head + params_text(params@.take(i as int)),
            decreases params.len() - i,
        {
            out.append(params[i].0.as_str());
            out.append(" = ");
            let hidden: String = mask_string(params[i].1.as_str(), 3);
            out.append(hidden.as_str());
            proof {
                let upto = params@.take(i + 1);
                assert(upto.take(i as int) == params@.take(i as int));
                assert(upto[i as int] == params@[i as int]);
                assert(out@ =~= head + params_text(upto));
            }
            i = i + 1;
        }
        proof {
            assert(params@.take(params.len() as int) == params@);
        }
        out
    }
}

impl DropConnectionStmt {
    /// The statement as text.
    pub open spec fn text(&self) -> Seq<char> {
        "CREATE CONNECTION "@ + (if self.if_exists {
            "IF NOT EXISTS "@
        } else {
            Seq::empty()
        }) + self.name.text() + " "@
    }

    pub fn to_string(&self) -> (out: String)
        ensures
            out@ == self.text(),
    {
        let mut out: String = String::from_str("CREATE CONNECTION ");
        if self.if_exists {
            out.append("IF NOT EXISTS ");
        }
        let name: String = self.name.to_string();
        out.append(name.as_str());
        out.append(" ");
        proof {
            assert(out@ =~= self.text());
        }
        out
    }
}

impl DescribeConnectionStmt {
    /// The statement as text.
    pub open spec fn text(&self) -> Seq<char> {
        "CREATE CONNECTION "@ + self.name.text() + " "@
    }

    pub fn to_string(&self) -> (out: String)
        ensures
            out@ == self.text(),
    {
        let mut out: String = String::from_str("CREATE CONNECTION ");
        let name: String = self.name.to_string();
        out.append(name.as_str());
        out.append(" ");
        out
    }
}

impl ShowConnectionsStmt {
    pub fn to_string(&self) -> (out: String)
        ensures
            out@ == "SHOW CONNECTIONS"@,
    {
        String::from_str("SHOW CONNECTIONS")
    }
}

} // verus!
