//! The alert e-mail's text and the mail relay settings.

use crate::grades::{note_view, DetailActivity};
use crate::semester::{decimal, decimal_string, digit_char, digit_str};
use vstd::prelude::*;

verus! {

/// A total in thousandths of a point, rounded to hundredths (halves away from
/// zero), without its sign.
pub open spec fn hundredths(t: int) -> nat {
    if t >= 0 {
        ((t + 5) / 10) as nat
    } else {
        ((-t + 5) / 10) as nat
    }
}

/// A total as a percentage with two decimals, as in `-75.25%`.
pub open spec fn percent_text(t: int) -> Seq<char> {
    let h = hundredths(t);
    let sign = if t < 0 {
        seq!['-']
    } else {
        Seq::<char>::empty()
    };
    sign + decimal(h / 100) + seq!['.', digit_char(((h % 100) / 10) as int), digit_char((h % 10) as int), '%']
}

/// A letter grade as shown in an alert.
pub open spec fn grade_text(n: Option<Seq<char>>) -> Seq<char> {
    match n {
        Some(s) => s,
        None => "N/A"@,
    }
}

/// A total as shown in an alert.
pub open spec fn total_text(t: Option<i64>) -> Seq<char> {
    match t {
        Some(v) => percent_text(v as int),
        None => "N/A"@,
    }
}

/// The text of an alert for a course and its new grade.
pub open spec fn alert_body(sigle: Seq<char>, title: Seq<char>, d: (Option<i64>, Option<Seq<char>>)) -> Seq<char> {
    "New grade detected!\n\nCourse: "@ + sigle + " - "@ + title + "\nGrade: "@ + grade_text(d.1)
        + "\nTotal: "@ + total_text(d.0) + "\n\nCheck here: https://monportail.uqam.ca"@
}

/// A total as a percentage with two decimals.
pub fn format_percent(t: i64) -> (r: String)
    ensures
        r@ == percent_text(t as int),
{
    let a: i128 = if t < 0 {
        -(t as i128)
    } else {
        t as i128
    };
    let h: u64 = ((a + 5) / 10) as u64;
    let mut s = if t < 0 {
        String::from_str("-")
    } else {
        String::new()
    };
    let whole = decimal_string(h / 100);
    s.append(whole.as_str());
    let tenths = (h % 100) / 10;
    let cents = h % 10;
    let tail = String::from_str(".").concat(digit_str(tenths as u32)).concat(digit_str(cents as u32)).concat(
        "%",
    );
    s.append(tail.as_str());
    proof {
        reveal_strlit("-");
        reveal_strlit(".");
        reveal_strlit("%");
        assert(h == hundredths(t as int));
        assert(s@ =~= percent_text(t as int));
    }
    s
}

/// The student's e-mail address: `{username}@uqam.ca`.
pub fn recipient_address(username: &str) -> (r: String)
    ensures
        r@ == username@ + "@uqam.ca"@,
{
    let mut s = String::from_str(username);
    s.append("@uqam.ca");
    s
}

/// The subject line of an alert.
pub fn alert_subject(sigle: &str) -> (r: String)
    ensures
        r@ == "UQAM Grade Update: "@ + sigle@,
{
    String::from_str("UQAM Grade Update: ").concat(sigle)
}

/// The text of an alert: course code and title, letter grade and total,
/// each of the last two `N/A` when absent.
pub fn alert_text(sigle: &str, title: &str, data: &DetailActivity) -> (r: String)
    ensures
        r@ == alert_body(sigle@, title@, data@),
{
    let mut s = String::from_str("New grade detected!\n\nCourse: ");
    s.append(sigle);
    s.append(" - ");
    s.append(title);
    s.append("\nGrade: ");
    match &data.note {
        Some(n) => s.append(n.as_str()),
        None => s.append("N/A"),
    }
    s.append("\nTotal: ");
    match data.total {
        Some(v) => {
            let p = format_percent(v);
            s.append(p.as_str());
        },
        None => s.append("N/A"),
    }
    s.append("\n\nCheck here: https://monportail.uqam.ca");
    proof {
        assert(s@ =~= alert_body(sigle@, title@, data@));
    }
    s
}

/// Settings of the mail relay.
pub struct MailConfig {
    /// Sender account on the relay.
    pub username: String,
    /// Sender password.
    pub password: String,
    /// Relay host.
    pub host: String,
}

/// Why an alert could not be sent.
#[derive(PartialEq, Eq, Structural)]
pub enum NotifyError {
    /// No sender account is configured.
    MissingUsername,
    /// No sender password is configured.
    MissingPassword,
}

/// The relay settings from the configured values: the sender account and
/// password are required, the host defaults to `smtp.gmail.com`.
pub fn mail_config(username: Option<String>, password: Option<String>, host: Option<String>) -> (r:
    Result<MailConfig, NotifyError>)
    ensures
        username is None ==> r == Err::<MailConfig, NotifyError>(NotifyError::MissingUsername),
        username is Some && password is None ==> r == Err::<MailConfig, NotifyError>(
            NotifyError::MissingPassword,
        ),
        username is Some && password is Some ==> (r matches Ok(c) && c.username@
            == username.unwrap()@ && c.password@ == password.unwrap()@ && c.host@ == match host {
            Some(h) => h@,
            None => "smtp.gmail.com"@,
        }),
{
    let username = match username {
        Some(u) => u,
        None => return Err(NotifyError::MissingUsername),
    };
    let password = match password {
        Some(p) => p,
        None => return Err(NotifyError::MissingPassword),
    };
    let host = match host {
        Some(h) => h,
        None => String::from_str("smtp.gmail.com"),
    };
    Ok(MailConfig { username, password, host })
}

} // verus!
