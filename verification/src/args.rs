//! Values of command line options.

use vstd::prelude::*;

verus! {

/// What `str::parse` makes of a text that is to be a 16-bit unsigned number: the number, or
/// the text that its error displays.
pub uninterp spec fn parsed_u16(text: Seq<char>) -> Result<u16, Seq<char>>;

/// Calls `str::parse::<u16>`. A refusal is handed back as the text that the error displays.
#[verifier::external_body]
fn parse_u16(text: &str) -> (parsed: Result<u16, String>)
    ensures
        match parsed {
            Ok(number) => parsed_u16(text@) == Ok::<u16, Seq<char>>(number),
            Err(detail) => parsed_u16(text@) == Err::<u16, Seq<char>>(detail@),
        },
{
    text.parse::<u16>().map_err(|error| error.to_string())
}

/// Reads the value of the port option.
pub fn integer_value(v: &str) -> (parsed: Result<u16, String>)
    ensures
        match parsed {
            Ok(port) => parsed_u16(v@) == Ok::<u16, Seq<char>>(port),
            Err(message) => parsed_u16(v@) is Err && message@ == "'"@ + v@
                + "' is not a valid port value: "@ + parsed_u16(v@)->Err_0,
        },
{
    match parse_u16(v) {
        Ok(port) => Ok(port),
        Err(detail) => {
            let mut message = "'".to_owned();
            message.append(v);
            message.append("' is not a valid port value: ");
            message.append(detail.as_str());
            Err(message)
        },
    }
}

} // verus!
