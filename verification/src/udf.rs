//! Functions that users define: by an expression over parameters, or by a
//! server that computes them.

use vstd::prelude::*;
use vstd::string::StringExecFns;

verus! {

/// A function given by an expression over its parameters.
#[derive(Clone, Debug, PartialEq, Eq)]
pub struct LambdaUDF {
    pub parameters: Vec<String>,
    pub definition: String,
}

/// A function computed by a server. Types are held by their names.
#[derive(Clone, Debug, PartialEq, Eq)]
pub struct UDFServer {
    pub address: String,
    pub handler: String,
    pub language: String,
    pub arg_types: Vec<String>,
    pub return_type: String,
}

#[derive(Clone, Debug, PartialEq, Eq)]
pub enum UDFDefinition {
    LambdaUDF(LambdaUDF),
    UDFServer(UDFServer),
}

#[derive(Clone, Debug, PartialEq, Eq)]
pub struct UserDefinedFunction {
    pub name: String,
    pub description: String,
    pub definition: UDFDefinition,
}

impl UserDefinedFunction {
    pub fn create_lambda_udf(
        name: &str,
        parameters: Vec<String>,
        definition: &str,
        description: &str,
    ) -> (udf: UserDefinedFunction)
        ensures
            udf.name@ == name@,
            udf.description@ == description@,
            udf.definition matches UDFDefinition::LambdaUDF(lambda) && lambda.parameters
                == parameters && lambda.definition@ == definition@,
    {
        UserDefinedFunction {
            name: name.to_owned(),
            description: description.to_owned(),
            definition: UDFDefinition::LambdaUDF(
                LambdaUDF { parameters, definition: definition.to_owned() },
            ),
        }
    }

    pub fn create_udf_server(
        name: &str,
        address: &str,
        handler: &str,
        language: &str,
        arg_types: Vec<String>,
        return_type: String,
        description: &str,
    ) -> (udf: UserDefinedFunction)
        ensures
            udf.name@ == name@,
            udf.description@ == description@,
            udf.definition matches UDFDefinition::UDFServer(server) && server.address@ == address@
                && server.handler@ == handler@ && server.language@ == language@
                && server.arg_types == arg_types && server.return_type == return_type,
    {
        UserDefinedFunction {
            name: name.to_owned(),
            description: description.to_owned(),
            definition: UDFDefinition::UDFServer(
                UDFServer {
                    address: address.to_owned(),
                    handler: handler.to_owned(),
                    language: language.to_owned(),
                    arg_types,
                    return_type,
                },
            ),
        }
    }
}

/// The items written one after the other, a comma and a blank between them.
pub open spec fn comma_separated(items: Seq<String>) -> Seq<char>
    decreases items.len(),
{
    if items.len() == 0 {
        Seq::empty()
    } else if items.len() == 1 {
        items[0]@
    } else {
        let n = items.len() - 1;
        comma_separated(items.take(n)) + ", "@ + items[n]@
    }
}

fn write_comma_separated(out: &mut String, items: &Vec<String>)
    ensures
        final(out)@ == old(out)@ + comma_separated(items@),
{
    let ghost head = out@;
    let mut i: usize = 0;
    proof {
        assert(out@ =~= head + comma_separated(items@.take(0)));
    }
    while i < items.len()
        invariant
            i <= items.len(),
            out@ == head + comma_separated(items@.take(i as int)),
        decreases items.len() - i,
    {
        if i > 0 {
            out.append(", ");
        }
        out.append(items[i].as_str());
        proof {
            let upto = items@.take(i + 1);
            assert(upto.take(i as int) == items@.take(i as int));
            assert(upto[i as int] == items@[i as int]);
            if i == 0 {
                assert(upto[0] == items@[0]);
                assert(items@.take(0).len() == 0);
            }
            assert(out@ =~= head + comma_separated(upto));
        }
        i = i + 1;
    }
    proof {
        assert(items@.take(items.len() as int) == items@);
    }
}

impl UDFDefinition {
    /// The definition as text, as it follows the function's name.
    pub open spec fn text(&self) -> Seq<char> {
        match self {
            UDFDefinition::LambdaUDF(lambda) => " ("@ + comma_separated(lambda.parameters@)
                + ") -> "@ + lambda.definition@,
            UDFDefinition::UDFServer(server) => " ("@ + comma_separated(server.arg_types@)
                + ") RETURNS "@ + server.return_type@ + " LANGUAGE "@ + server.language@
                + " HANDLER = "@ + server.handler@ + " ADDRESS = "@ + server.address@,
        }
    }

    pub fn to_string(&self) -> (out: String)
        ensures
            out@ == self.text(),
    {
        let mut out: String = String::from_str(" (");
        match self {
            UDFDefinition::LambdaUDF(lambda) => {
                write_comma_separated(&mut out, &lambda.parameters);
                out.append(") -> ");
                out.append(lambda.definition.as_str());
            },
            UDFDefinition::UDFServer(server) => {
                write_comma_separated(&mut out, &server.arg_types);
                out.append(") RETURNS ");
                out.append(server.return_type.as_str());
                out.append(" LANGUAGE ");
                out.append(server.language.as_str());
                out.append(" HANDLER = ");
                out.append(server.handler.as_str());
                out.append(" ADDRESS = ");
                out.append(server.address.as_str());
            },
        }
        out
    }
}

} // verus!
