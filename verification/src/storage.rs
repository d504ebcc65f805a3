//! What is kept of the panel from one session to the next, and under which key.

use crate::files::optional_text;
use crate::panel::SearchPanel;
use crate::settings::Pixels;
use crate::text::{
    read_number, signed_decimal, signed_decimal_reads_back, signed_decimal_text,
};
use vstd::prelude::*;
use vstd::string::*;

verus! {

/// The name of the panel's entry in the store.
pub const SEARCH_PANEL_KEY: &'static str = "SearchPanel";

/// What is kept of the panel.
#[derive(Clone, Copy, Debug, PartialEq, Eq, Structural)]
pub struct SerializedSearchPanel {
    pub width: Option<Pixels>,
}

/// How `std` writes a string for `{:?}`: between double quotes, with the characters escaped that
/// do not print.
pub uninterp spec fn debug_quoted(text: Seq<char>) -> Seq<char>;

/// `format!` with `{:?}` writes a string the way its `Debug` does. Which characters that escapes
/// is left to `std`.
#[verifier::external_body]
fn debug_text(text: &str) -> (quoted: String)
    ensures
        quoted@ == debug_quoted(text@),
{
    format!("{:?}", text)
}

/// The key under which a workspace keeps its panel.
pub open spec fn storage_key(quoted_id: Seq<char>) -> Seq<char> {
    SEARCH_PANEL_KEY@ + "-"@ + quoted_id
}

/// The text that tells a workspace from others: its number in the database or else its session.
pub open spec fn workspace_id(
    database_id: Option<i64>,
    session_id: Option<String>,
) -> Option<Seq<char>> {
    match database_id {
        Some(id) => Some(signed_decimal(id as int)),
        None => optional_text(session_id),
    }
}

/// Puts together the key of a workspace from its quoted id.
pub fn key_of(quoted_id: &str) -> (key: String)
    ensures
        key@ == storage_key(quoted_id@),
{
    let mut key = SEARCH_PANEL_KEY.to_owned();
    key.append("-");
    key.append(quoted_id);
    key
}

impl SearchPanel {
    /// The key under which a workspace keeps its panel, if the workspace can be told from others.
    pub fn serialization_key(database_id: Option<i64>, session_id: Option<String>) -> (key: Option<
        String,
    >)
        ensures
            match key {
                Some(key) => workspace_id(database_id, session_id) is Some && key@ == storage_key(
                    debug_quoted(workspace_id(database_id, session_id)->0),
                ),
                None => workspace_id(database_id, session_id) is None,
            },
    {
        let id = match database_id {
            Some(id) => Some(signed_decimal_text(id)),
            None => session_id,
        };
        match id {
            Some(id) => Some(key_of(debug_text(id.as_str()).as_str())),
            None => None,
        }
    }
}

/// A key is the panel's name, a dash and the quoted id, so that different quoted ids have different
/// keys.
pub proof fn keys_tell_ids_apart(a: Seq<char>, b: Seq<char>)
    ensures
        storage_key(a) == "SearchPanel-"@ + a,
        storage_key(a) == storage_key(b) ==> a == b,
{
    reveal_strlit("SearchPanel");
    reveal_strlit("-");
    reveal_strlit("SearchPanel-");
    assert(storage_key(a) =~= "SearchPanel-"@ + a);
    let len = "SearchPanel-"@.len() as int;
    assert(storage_key(a).skip(len) =~= a);
    assert(storage_key(b) =~= "SearchPanel-"@ + b);
    assert(storage_key(b).skip(len) =~= b);
}

/// A workspace goes by its number in the database, whatever its session, and by its session if it
/// has no number.
pub proof fn workspace_goes_by_its_number_first(
    database_id: Option<i64>,
    session_id: Option<String>,
)
    ensures
        database_id is Some ==> workspace_id(database_id, session_id) is Some,
        database_id is Some && database_id->0 >= 0 ==> read_number(
            workspace_id(database_id, session_id)->0,
        ) == database_id->0,
        database_id is Some && database_id->0 < 0 ==> workspace_id(database_id, session_id)->0[0]
            == '-' && read_number(workspace_id(database_id, session_id)->0.skip(1))
            == -database_id->0,
        database_id is None && session_id is Some ==> workspace_id(database_id, session_id) == Some(
            session_id->0@,
        ),
        database_id is None && session_id is None ==> workspace_id(database_id, session_id) is None,
{
    if database_id is Some {
        signed_decimal_reads_back(database_id->0 as int);
    }
}

} // verus!
