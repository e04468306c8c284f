use vstd::prelude::*;
use crate::types::{dec_digits, append_u64};

verus! {

/// The failure a query page reports: the service's own description of why
/// the statement failed.
#[derive(Debug)]
pub struct QueryError {
    pub message: String,
    pub sql_state: Option<String>,
    pub error_code: i32,
    pub error_name: String,
    pub error_type: String,
    pub error_location: Option<ErrorLocation>,
    pub failure_info: FailureInfo,
}

/// Where in the statement text a failure points.
#[derive(Debug, PartialEq, Eq)]
pub struct ErrorLocation {
    pub line_number: u32,
    pub column_number: u32,
}

/// The service's stack-shaped failure detail, with nested causes.
#[derive(Debug)]
pub struct FailureInfo {
    pub ty: String,
    pub suppressed: Vec<FailureInfo>,
    pub stack: Vec<String>,
    pub message: Option<String>,
    pub cause: Option<Box<FailureInfo>>,
    pub error_location: Option<ErrorLocation>,
}

impl ErrorLocation {
    /// The location as `(line, column)`.
    pub fn display(&self) -> (r: String)
        ensures
            r@ == "("@ + dec_digits(self.line_number as nat) + ", "@
                + dec_digits(self.column_number as nat) + ")"@,
    {
        let mut out = String::new();
        out.append("(");
        append_u64(&mut out, self.line_number as u64);
        out.append(", ");
        append_u64(&mut out, self.column_number as u64);
        out.append(")");
        proof {
            assert(out@ =~= "("@ + dec_digits(self.line_number as nat) + ", "@
                + dec_digits(self.column_number as nat) + ")"@);
        }
        out
    }
}

impl FailureInfo {
    /// A human-readable rendering: the type, the optional message and
    /// location, the stack, and the nested cause.
    #[verifier::loop_isolation(false)]
    pub fn display(&self) -> String
        decreases self,
    {
        let mut out = String::new();
        out.append("ty: ");
        out.append(self.ty.as_str());
        out.append("\n");
        match &self.message {
            Some(m) => {
                out.append("message: ");
                out.append(m.as_str());
                out.append("\n");
            },
            None => {},
        }
        match &self.error_location {
            Some(loc) => {
                out.append("loc: ");
                let rendered = loc.display();
                out.append(rendered.as_str());
                out.append("\n");
            },
            None => {},
        }
        out.append("stack:\n");
        let mut i: usize = 0;
        while i < self.stack.len()
            decreases self.stack.len() - i,
        {
            out.append("\ttype: ");
            out.append(self.stack[i].as_str());
            out.append("\n");
            i = i + 1;
        }
        match &self.cause {
            Some(c) => {
                out.append("cause: ");
                let rendered = c.display();
                out.append(rendered.as_str());
            },
            None => {},
        }
        out
    }
}

impl QueryError {
    /// A human-readable rendering of the whole failure report.
    pub fn display(&self) -> String {
        let mut out = String::new();
        out.append("message: ");
        out.append(self.message.as_str());
        out.append("\n");
        match &self.sql_state {
            Some(st) => {
                out.append("sql_state: ");
                out.append(st.as_str());
                out.append("\n");
            },
            None => {},
        }
        out.append("error_code: ");
        if self.error_code >= 0 {
            append_u64(&mut out, self.error_code as u64);
        } else {
            out.append("-");
            let mag: u64 = -(self.error_code as i64) as u64;
            append_u64(&mut out, mag);
        }
        out.append("\n");
        out.append("error_type: ");
        out.append(self.error_name.as_str());
        out.append("\n");
        match &self.error_location {
            Some(loc) => {
                out.append("error_location: ");
                let rendered = loc.display();
                out.append(rendered.as_str());
                out.append("\n");
            },
            None => {},
        }
        out.append("failure_info: ");
        let rendered = self.failure_info.display();
        out.append(rendered.as_str());
        out.append("\n");
        out
    }
}

} // verus!
