//! Start-up settings: the address to bind to and the default log filter.

use vstd::prelude::*;
use vstd::string::{StringExecFns, StringSliceAdditionalSpecFns};

use crate::address::{is_socket_address, is_valid_socket_address, number, splits_as_address};
use crate::part::text_of;

verus! {

/// The address that is bound when none is configured, or an invalid one.
pub const DEFAULT_BINDING_ADDRESS: &'static str = "0.0.0.0:5050";

/// The name of the environment variable that configures the address.
pub const BINDING_ADDRESS: &'static str = "BINDING_ADDRESS";

/// The name of the environment variable that selects the log filter.
pub const RUST_LOG: &'static str = "RUST_LOG";

/// The log filter of a debug build.
pub const DEBUG_LOG_FILTER: &'static str = "debug,actix_server=debug,actix_web=debug";

/// The log filter of a release build.
pub const RELEASE_LOG_FILTER: &'static str = "info,actix_server=info,actix_web=info";

/// The address to bind to, and the configured value that was refused, if one
/// was.
#[derive(Debug, Clone, PartialEq, Eq)]
pub struct BindingChoice {
    /// The address to bind to.
    pub address: String,
    /// The configured value, where it was not a valid address.
    pub rejected: Option<String>,
}

/// Whether `text` is an IPv4 socket address.
pub open spec fn is_valid_address(text: Seq<char>) -> bool {
    is_socket_address(vstd::utf8::encode_utf8(text))
}

/// The address that is bound for a configured value.
pub open spec fn chosen_address(configured: Option<Seq<char>>) -> Seq<char> {
    match configured {
        Some(text) if is_valid_address(text) => text,
        _ => DEFAULT_BINDING_ADDRESS@,
    }
}

/// The configured value that is refused: the one that is no valid address.
pub open spec fn rejected_address(configured: Option<Seq<char>>) -> Option<Seq<char>> {
    match configured {
        Some(text) if !is_valid_address(text) => Some(text),
        _ => None,
    }
}

/// The warning that reports a refused value and the address used in its place.
pub open spec fn fallback_warning_text(rejected: Seq<char>) -> Seq<char> {
    "Invalid SockedAddrV4 => \""@ + rejected + "\", using the default \""@
        + DEFAULT_BINDING_ADDRESS@ + "\""@
}

/// Decides whether `text` is an IPv4 socket address.
pub fn is_binding_address(text: &str) -> (valid: bool)
    ensures
        valid == is_valid_address(text@),
{
    is_valid_socket_address(text.as_bytes())
}

/// Chooses the address to bind to.
///
/// A configured value that is a valid IPv4 socket address is taken as it is.
/// Without a configured value, or with one that is not valid, the default
/// address is chosen; an invalid value is handed back for the warning.
pub fn load_binding_address(configured: Option<String>) -> (choice: BindingChoice)
    ensures
        choice.address@ == chosen_address(text_of(configured)),
        text_of(choice.rejected) == rejected_address(text_of(configured)),
{
    match configured {
        Some(text) => {
            if is_binding_address(text.as_str()) {
                BindingChoice { address: text, rejected: None }
            } else {
                BindingChoice {
                    address: String::from_str(DEFAULT_BINDING_ADDRESS),
                    rejected: Some(text),
                }
            }
        },
        None => BindingChoice {
            address: String::from_str(DEFAULT_BINDING_ADDRESS),
            rejected: None,
        },
    }
}

/// Whatever is configured, the address that is chosen is a valid IPv4 socket
/// address: a value that is not valid never reaches the listener.
pub proof fn law_chosen_address_is_valid(configured: Option<Seq<char>>)
    ensures
        is_valid_address(chosen_address(configured)),
        configured is Some && !is_valid_address(configured->Some_0) ==> chosen_address(configured)
            == DEFAULT_BINDING_ADDRESS@,
{
    let text = DEFAULT_BINDING_ADDRESS@;
    let bytes = vstd::utf8::encode_utf8(text);
    assert(is_socket_address(bytes)) by {
        reveal_strlit("0.0.0.0:5050");
        assert(vstd::utf8::is_ascii_chars(text));
        vstd::utf8::is_ascii_chars_encode_utf8(text);
        assert(bytes =~= seq![48u8, 46, 48, 46, 48, 46, 48, 58, 53, 48, 53, 48]);
        let zero = seq![48u8];
        assert(number(zero) == 0) by {
            reveal_with_fuel(number, 2);
        }
        assert(bytes.subrange(0, 1) =~= zero);
        assert(bytes.subrange(2, 3) =~= zero);
        assert(bytes.subrange(4, 5) =~= zero);
        assert(bytes.subrange(6, 7) =~= zero);
        let port = seq![53u8, 48, 53, 48];
        assert(bytes.subrange(8, 12) =~= port);
        assert(number(port) == 5050) by {
            let one = seq![53u8];
            let two = seq![53u8, 48];
            let three = seq![53u8, 48, 53];
            assert(one.drop_last() =~= Seq::<u8>::empty());
            assert(number(one) == 5) by {
                reveal_with_fuel(number, 2);
            }
            assert(two.drop_last() =~= one);
            assert(number(two) == 50);
            assert(three.drop_last() =~= two);
            assert(number(three) == 505);
            assert(port.drop_last() =~= three);
        }
        assert(splits_as_address(bytes, 1, 3, 5, 7));
    }
}

/// Writes the warning for a refused value.
pub fn fallback_warning(rejected: &str) -> (text: String)
    ensures
        text@ == fallback_warning_text(rejected@),
{
    let mut text = String::from_str("Invalid SockedAddrV4 => \"");
    text.append(rejected);
    text.append("\", using the default \"");
    text.append(DEFAULT_BINDING_ADDRESS);
    text.append("\"");
    text
}

/// The log filter that a build uses when none is configured: a verbose one
/// for a debug build, an informational one for a release build.
pub open spec fn default_filter(debug_build: bool) -> Seq<char> {
    if debug_build {
        DEBUG_LOG_FILTER@
    } else {
        RELEASE_LOG_FILTER@
    }
}

/// The log filter to put in place at start-up: none where one is configured
/// already, else the default of the build.
pub fn missing_log_filter(configured: bool, debug_build: bool) -> (filter: Option<&'static str>)
    ensures
        configured ==> filter is None,
        !configured ==> filter is Some && filter->Some_0@ == default_filter(debug_build),
{
    if configured {
        None
    } else if debug_build {
        Some(DEBUG_LOG_FILTER)
    } else {
        Some(RELEASE_LOG_FILTER)
    }
}

} // verus!
