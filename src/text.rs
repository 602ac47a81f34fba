//! The texts the relay sends, and the escaping of forwarded content.
use vstd::prelude::*;

verus! {

/// What the transport's markup escaping makes of a text.
pub uninterp spec fn safe_text(s: Seq<char>) -> Seq<char>;

/// Relies on serenity's `MessageBuilder::push_safe`: the text with mentions
/// neutralised and formatting characters escaped, so that it is shown as
/// written. The result depends on the text alone.
#[verifier::external_body]
pub(crate) fn escape_markup(content: &str) -> (r: String)
    ensures
        r@ == safe_text(content@),
{
    serenity::utils::MessageBuilder::new().push_safe(content).build()
}

pub open spec fn blocked_notice_text() -> Seq<char> {
    "You have been blocked by a server admin."@
}

/// The reply to a direct message of a blocked user.
pub fn blocked_notice() -> (r: String)
    ensures
        r@ == blocked_notice_text(),
{
    proof { reveal_strlit("You have been blocked by a server admin."); }
    String::from_str("You have been blocked by a server admin.")
}

/// `a`, then `b` quoted as inline code, then `c`.
pub open spec fn quoted(a: Seq<char>, b: Seq<char>, c: Seq<char>) -> Seq<char> {
    a + "`"@ + b + "`"@ + c
}

/// Builds `a`, then `b` quoted as inline code, then `c`.
pub fn quote(a: &str, b: &str, c: &str) -> (r: String)
    ensures
        r@ == quoted(a@, b@, c@),
{
    proof { reveal_strlit("`"); }
    let mut r = String::from_str(a);
    r.append("`");
    r.append(b);
    r.append("`");
    r.append(c);
    proof {
        assert(r@ =~= quoted(a@, b@, c@));
    }
    r
}

pub open spec fn assigned_text(codename: Seq<char>) -> Seq<char> {
    quoted("You've been assigned the codename "@, codename, "."@)
}

/// The reply that tells a new user their codename.
pub fn assigned(codename: &str) -> (r: String)
    ensures
        r@ == assigned_text(codename@),
{
    quote("You've been assigned the codename ", codename, ".")
}

/// Whether `s` reads exactly `lit`.
pub fn text_is(s: &String, lit: &str) -> (r: bool)
    ensures
        r == (s@ == lit@),
{
    let l = String::from_str(lit);
    *s == l
}

/// `a` followed by `b`.
pub fn join(a: &str, b: &str) -> (r: String)
    ensures
        r@ == a@ + b@,
{
    let mut r = String::from_str(a);
    r.append(b);
    r
}

} // verus!
