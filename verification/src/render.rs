//! Rendering of engine values into the caller-facing listing texts.
//!
//! Every formatter's output is pinned down character by character, including
//! the decimal rendering of numbers, so a listing is exactly the text its
//! contract states.

use vstd::prelude::*;

use crate::models::{AnimalModel, BangPointModel, InfractionModel, Punishment, Severity, Tag,
    UserInfractionModel};

verus! {

/// The character of a decimal digit.
pub open spec fn digit_char(d: nat) -> char {
    if d == 0 {
        '0'
    } else if d == 1 {
        '1'
    } else if d == 2 {
        '2'
    } else if d == 3 {
        '3'
    } else if d == 4 {
        '4'
    } else if d == 5 {
        '5'
    } else if d == 6 {
        '6'
    } else if d == 7 {
        '7'
    } else if d == 8 {
        '8'
    } else {
        '9'
    }
}

/// The decimal digits of `n`, most significant first.
pub open spec fn dec_str(n: nat) -> Seq<char>
    decreases n,
{
    if n < 10 {
        seq![digit_char(n)]
    } else {
        dec_str(n / 10).push(digit_char(n % 10))
    }
}

/// The decimal rendering of a signed number: a minus sign before the digits
/// of its magnitude when it is negative.
pub open spec fn dec_str_signed(n: int) -> Seq<char> {
    if n < 0 {
        seq!['-'] + dec_str((-n) as nat)
    } else {
        dec_str(n as nat)
    }
}

/// The one-character text of a decimal digit.
fn digit_str(d: u64) -> (r: &'static str)
    requires
        d < 10,
    ensures
        r@ == seq![digit_char(d as nat)],
{
    proof {
        reveal_strlit("0");
        reveal_strlit("1");
        reveal_strlit("2");
        reveal_strlit("3");
        reveal_strlit("4");
        reveal_strlit("5");
        reveal_strlit("6");
        reveal_strlit("7");
        reveal_strlit("8");
        reveal_strlit("9");
    }
    let r: &'static str = if d == 0 {
        "0"
    } else if d == 1 {
        "1"
    } else if d == 2 {
        "2"
    } else if d == 3 {
        "3"
    } else if d == 4 {
        "4"
    } else if d == 5 {
        "5"
    } else if d == 6 {
        "6"
    } else if d == 7 {
        "7"
    } else if d == 8 {
        "8"
    } else {
        "9"
    };
    proof {
        assert(r@ =~= seq![digit_char(d as nat)]);
    }
    r
}

/// Append the decimal digits of `n`, most significant first.
pub fn append_u64(s: &mut String, n: u64)
    ensures
        final(s)@ == old(s)@ + dec_str(n as nat),
    decreases n,
{
    if n < 10 {
        s.append(digit_str(n));
    } else {
        append_u64(s, n / 10);
        s.append(digit_str(n % 10));
        proof {
            assert(old(s)@ + dec_str((n / 10) as nat) + seq![digit_char((n % 10) as nat)] =~= old(
                s,
            )@ + dec_str(n as nat));
        }
    }
}

/// Append the decimal rendering of a signed number.
pub fn append_i64(s: &mut String, n: i64)
    ensures
        final(s)@ == old(s)@ + dec_str_signed(n as int),
    decreases n,
{
    if n < 0 {
        let m: u64 = if n == i64::MIN {
            9223372036854775808u64
        } else {
            (-n) as u64
        };
        assert(m as nat == (-(n as int)) as nat);
        s.append("-");
        proof {
            reveal_strlit("-");
            assert("-"@ =~= seq!['-']);
        }
        append_u64(s, m);
        proof {
            assert(old(s)@ + "-"@ + dec_str(m as nat) =~= old(s)@ + dec_str_signed(n as int));
        }
    } else {
        append_u64(s, n as u64);
    }
}

/// The decimal text of an unsigned number.
pub fn u64_to_string(n: u64) -> (r: String)
    ensures
        r@ == dec_str(n as nat),
{
    let mut s = String::new();
    append_u64(&mut s, n);
    proof {
        assert(s@ =~= dec_str(n as nat));
    }
    s
}

/// The decimal text of a signed number.
pub fn i64_to_string(n: i64) -> (r: String)
    ensures
        r@ == dec_str_signed(n as int),
{
    let mut s = String::new();
    append_i64(&mut s, n);
    proof {
        assert(s@ =~= dec_str_signed(n as int));
    }
    s
}

/// The display name of a severity.
pub open spec fn severity_label(severity: Severity) -> Seq<char> {
    match severity {
        Severity::Low => "Low"@,
        Severity::Mid => "Mid"@,
        Severity::High => "High"@,
    }
}

/// The display name of a severity.
pub fn severity_name(severity: Severity) -> (r: &'static str)
    ensures
        r@ == severity_label(severity),
{
    match severity {
        Severity::Low => "Low",
        Severity::Mid => "Mid",
        Severity::High => "High",
    }
}

/// The display name of a punishment kind.
pub open spec fn punishment_label(punishment: Punishment) -> Seq<char> {
    match punishment {
        Punishment::Strike => "Strike"@,
        Punishment::Timeout => "Timeout"@,
        Punishment::Ban => "Ban"@,
        Punishment::Kick => "Kick"@,
        Punishment::Unban => "Unban"@,
        Punishment::Untimeout => "Untimeout"@,
    }
}

/// The display name of a punishment kind.
pub fn punishment_name(punishment: Punishment) -> (r: &'static str)
    ensures
        r@ == punishment_label(punishment),
{
    match punishment {
        Punishment::Strike => "Strike",
        Punishment::Timeout => "Timeout",
        Punishment::Ban => "Ban",
        Punishment::Kick => "Kick",
        Punishment::Unban => "Unban",
        Punishment::Untimeout => "Untimeout",
    }
}

/// The detail text of one policy record.
pub open spec fn infraction_text(m: InfractionModel) -> Seq<char> {
    ":information_source: ID: "@ + dec_str_signed(m.id as int)
        + "\n:information_source: Severity: "@ + severity_label(m.severity)
        + "\n:information_source: Punishment: "@ + punishment_label(m.punishment)
        + "\n:information_source: Duration: "@ + dec_str_signed(m.duration as int) + "\r\n"@
}

/// Render one policy record for the caller-facing reply.
pub fn format_infraction(m: InfractionModel) -> (r: String)
    ensures
        r@ == infraction_text(m),
{
    let mut s = String::new();
    s.append(":information_source: ID: ");
    append_i64(&mut s, m.id as i64);
    s.append("\n:information_source: Severity: ");
    s.append(severity_name(m.severity));
    s.append("\n:information_source: Punishment: ");
    s.append(punishment_name(m.punishment));
    s.append("\n:information_source: Duration: ");
    append_i64(&mut s, m.duration as i64);
    s.append("\r\n");
    proof {
        assert(s@ =~= infraction_text(m));
    }
    s
}

/// One line of the policy listing.
pub open spec fn infraction_line(m: InfractionModel) -> Seq<char> {
    "- ID: `"@ + dec_str_signed(m.id as int) + "` | Severity: `"@ + severity_label(m.severity)
        + "` | Punishment: `"@ + punishment_label(m.punishment) + "` | Duration: `"@
        + dec_str_signed(m.duration as int) + "`"@
}

/// The policy listing's lines, joined by line breaks.
pub open spec fn infractions_text(s: Seq<InfractionModel>) -> Seq<char>
    decreases s.len(),
{
    if s.len() == 0 {
        Seq::empty()
    } else if s.len() == 1 {
        infraction_line(s[0])
    } else {
        infractions_text(s.drop_last()) + "\n"@ + infraction_line(s.last())
    }
}

/// Render the policy catalog listing: one line per policy, or a note that the
/// catalog is empty.
pub fn format_infractions_list(infractions: &Vec<InfractionModel>) -> (r: String)
    ensures
        infractions@.len() == 0 ==> r@ == "No infractions in table!"@,
        infractions@.len() > 0 ==> r@ == infractions_text(infractions@),
{
    if infractions.len() == 0 {
        return String::from_str("No infractions in table!");
    }
    let mut s = String::new();
    let mut i: usize = 0;
    while i < infractions.len()
        invariant
            0 <= i <= infractions@.len(),
            i > 0 ==> s@ == infractions_text(infractions@.take(i as int)),
            i == 0 ==> s@ == Seq::<char>::empty(),
        decreases infractions@.len() - i,
    {
        proof {
            assert(infractions@.take(i + 1 as int).drop_last() =~= infractions@.take(i as int));
            assert(infractions@.take(i + 1 as int).last() == infractions@[i as int]);
        }
        if i > 0 {
            s.append("\n");
            proof {
                reveal_strlit("\n");
            }
        }
        let m = infractions[i];
        s.append("- ID: `");
        append_i64(&mut s, m.id as i64);
        s.append("` | Severity: `");
        s.append(severity_name(m.severity));
        s.append("` | Punishment: `");
        s.append(punishment_name(m.punishment));
        s.append("` | Duration: `");
        append_i64(&mut s, m.duration as i64);
        s.append("`");
        proof {
            assert(s@ =~= infractions_text(infractions@.take(i + 1 as int)));
        }
        i = i + 1;
    }
    proof {
        assert(infractions@.take(infractions@.len() as int) =~= infractions@);
    }
    s
}

/// One line of a member's infraction history.
pub open spec fn user_infraction_line(m: UserInfractionModel) -> Seq<char> {
    "- ID: `"@ + dec_str_signed(m.id as int) + "` | User ID: `"@ + dec_str(m.user_id as nat)
        + "` | Infraction ID: `"@ + dec_str_signed(m.infraction_id as int) + "` | Created At: `"@
        + dec_str_signed(m.created_at as int) + "`"@
}

/// The infraction history's lines, joined by line breaks.
pub open spec fn user_infractions_text(s: Seq<UserInfractionModel>) -> Seq<char>
    decreases s.len(),
{
    if s.len() == 0 {
        Seq::empty()
    } else if s.len() == 1 {
        user_infraction_line(s[0])
    } else {
        user_infractions_text(s.drop_last()) + "\n"@ + user_infraction_line(s.last())
    }
}

/// Render a member's infraction history: one line per policy-linked record,
/// or a note that there is none.
pub fn format_user_infractions(records: &Vec<UserInfractionModel>) -> (r: String)
    ensures
        records@.len() == 0 ==> r@ == "User has no infractions!"@,
        records@.len() > 0 ==> r@ == user_infractions_text(records@),
{
    if records.len() == 0 {
        return String::from_str("User has no infractions!");
    }
    let mut s = String::new();
    let mut i: usize = 0;
    while i < records.len()
        invariant
            0 <= i <= records@.len(),
            i > 0 ==> s@ == user_infractions_text(records@.take(i as int)),
            i == 0 ==> s@ == Seq::<char>::empty(),
        decreases records@.len() - i,
    {
        proof {
            assert(records@.take(i + 1 as int).drop_last() =~= records@.take(i as int));
            assert(records@.take(i + 1 as int).last() == records@[i as int]);
        }
        if i > 0 {
            s.append("\n");
            proof {
                reveal_strlit("\n");
            }
        }
        let m = records[i];
        s.append("- ID: `");
        append_i64(&mut s, m.id as i64);
        s.append("` | User ID: `");
        append_u64(&mut s, m.user_id);
        s.append("` | Infraction ID: `");
        append_i64(&mut s, m.infraction_id as i64);
        s.append("` | Created At: `");
        append_i64(&mut s, m.created_at);
        s.append("`");
        proof {
            assert(s@ =~= user_infractions_text(records@.take(i + 1 as int)));
        }
        i = i + 1;
    }
    proof {
        assert(records@.take(records@.len() as int) =~= records@);
    }
    s
}

/// One line of the animal listing.
pub open spec fn animal_line(a: AnimalModel) -> Seq<char> {
    "- `"@ + a.animal@ + "` | `"@ + a.emoji@ + "` | `"@ + dec_str_signed(a.points as int)
        + "` points"@
}

/// The animal listing's lines, joined by line breaks.
pub open spec fn animals_text(s: Seq<AnimalModel>) -> Seq<char>
    decreases s.len(),
{
    if s.len() == 0 {
        Seq::empty()
    } else if s.len() == 1 {
        animal_line(s[0])
    } else {
        animals_text(s.drop_last()) + "\n"@ + animal_line(s.last())
    }
}

/// Render the animal table: one line per entry, or a note that it is empty.
pub fn parse_animals(animals: &Vec<AnimalModel>) -> (r: String)
    ensures
        animals@.len() == 0 ==> r@ == "No animals!"@,
        animals@.len() > 0 ==> r@ == animals_text(animals@),
{
    if animals.len() == 0 {
        return String::from_str("No animals!");
    }
    let mut s = String::new();
    let mut i: usize = 0;
    while i < animals.len()
        invariant
            0 <= i <= animals@.len(),
            i > 0 ==> s@ == animals_text(animals@.take(i as int)),
            i == 0 ==> s@ == Seq::<char>::empty(),
        decreases animals@.len() - i,
    {
        proof {
            assert(animals@.take(i + 1 as int).drop_last() =~= animals@.take(i as int));
            assert(animals@.take(i + 1 as int).last() == animals@[i as int]);
        }
        if i > 0 {
            s.append("\n");
            proof {
                reveal_strlit("\n");
            }
        }
        let a = &animals[i];
        s.append("- `");
        s.append(a.animal.as_str());
        s.append("` | `");
        s.append(a.emoji.as_str());
        s.append("` | `");
        append_i64(&mut s, a.points as i64);
        s.append("` points");
        proof {
            assert(s@ =~= animals_text(animals@.take(i + 1 as int)));
        }
        i = i + 1;
    }
    proof {
        assert(animals@.take(animals@.len() as int) =~= animals@);
    }
    s
}

/// One line of the score ranking.
pub open spec fn ranking_line(b: BangPointModel) -> Seq<char> {
    "- `"@ + b.user_id@ + "` | `"@ + dec_str_signed(b.points as int) + "` points"@
}

/// The ranking's lines, joined by line breaks.
pub open spec fn ranking_text(s: Seq<BangPointModel>) -> Seq<char>
    decreases s.len(),
{
    if s.len() == 0 {
        Seq::empty()
    } else if s.len() == 1 {
        ranking_line(s[0])
    } else {
        ranking_text(s.drop_last()) + "\n"@ + ranking_line(s.last())
    }
}

/// Render the score ranking: one line per member, or a note that nobody is
/// ranked.
pub fn parse_ranking(bang_points: &Vec<BangPointModel>) -> (r: String)
    ensures
        bang_points@.len() == 0 ==> r@ == "No one is ranked!"@,
        bang_points@.len() > 0 ==> r@ == ranking_text(bang_points@),
{
    if bang_points.len() == 0 {
        return String::from_str("No one is ranked!");
    }
    let mut s = String::new();
    let mut i: usize = 0;
    while i < bang_points.len()
        invariant
            0 <= i <= bang_points@.len(),
            i > 0 ==> s@ == ranking_text(bang_points@.take(i as int)),
            i == 0 ==> s@ == Seq::<char>::empty(),
        decreases bang_points@.len() - i,
    {
        proof {
            assert(bang_points@.take(i + 1 as int).drop_last() =~= bang_points@.take(i as int));
            assert(bang_points@.take(i + 1 as int).last() == bang_points@[i as int]);
        }
        if i > 0 {
            s.append("\n");
            proof {
                reveal_strlit("\n");
            }
        }
        let b = &bang_points[i];
        s.append("- `");
        s.append(b.user_id.as_str());
        s.append("` | `");
        append_i64(&mut s, b.points as i64);
        s.append("` points");
        proof {
            assert(s@ =~= ranking_text(bang_points@.take(i + 1 as int)));
        }
        i = i + 1;
    }
    proof {
        assert(bang_points@.take(bang_points@.len() as int) =~= bang_points@);
    }
    s
}

/// One line of the tag listing.
pub open spec fn tag_line(t: Tag) -> Seq<char> {
    "- "@ + t.name@
}

/// The tag listing's lines, joined by line breaks.
pub open spec fn tags_text(s: Seq<Tag>) -> Seq<char>
    decreases s.len(),
{
    if s.len() == 0 {
        Seq::empty()
    } else if s.len() == 1 {
        tag_line(s[0])
    } else {
        tags_text(s.drop_last()) + "\n"@ + tag_line(s.last())
    }
}

/// Render a page of the tag listing; no page at all renders as empty text.
pub fn format_tags(tags: Option<Vec<Tag>>) -> (r: String)
    ensures
        match tags {
            Option::None => r@ == Seq::<char>::empty(),
            Option::Some(ts) => r@ == tags_text(ts@),
        },
{
    let ts = match tags {
        Option::None => {
            let r = String::new();
            return r;
        },
        Option::Some(ts) => ts,
    };
    let mut s = String::new();
    let mut i: usize = 0;
    while i < ts.len()
        invariant
            0 <= i <= ts@.len(),
            i > 0 ==> s@ == tags_text(ts@.take(i as int)),
            i == 0 ==> s@ == Seq::<char>::empty(),
        decreases ts@.len() - i,
    {
        proof {
            assert(ts@.take(i + 1 as int).drop_last() =~= ts@.take(i as int));
            assert(ts@.take(i + 1 as int).last() == ts@[i as int]);
        }
        if i > 0 {
            s.append("\n");
            proof {
                reveal_strlit("\n");
            }
        }
        s.append("- ");
        s.append(ts[i].name.as_str());
        proof {
            assert(s@ =~= tags_text(ts@.take(i + 1 as int)));
        }
        i = i + 1;
    }
    proof {
        assert(ts@.take(ts@.len() as int) =~= ts@);
    }
    s
}

/// One line of the target listing: the member as a display mention.
pub open spec fn user_id_line(id: u64) -> Seq<char> {
    "- <@"@ + dec_str(id as nat) + ">"@
}

/// The target listing's lines, joined by line breaks.
pub open spec fn user_ids_text(s: Seq<u64>) -> Seq<char>
    decreases s.len(),
{
    if s.len() == 0 {
        Seq::empty()
    } else if s.len() == 1 {
        user_id_line(s[0])
    } else {
        user_ids_text(s.drop_last()) + "\n"@ + user_id_line(s.last())
    }
}

/// Render a target list as display mentions, one line per target.
pub fn format_user_ids_list(user_ids: Vec<u64>) -> (r: String)
    ensures
        r@ == user_ids_text(user_ids@),
{
    let mut s = String::new();
    let mut i: usize = 0;
    while i < user_ids.len()
        invariant
            0 <= i <= user_ids@.len(),
            i > 0 ==> s@ == user_ids_text(user_ids@.take(i as int)),
            i == 0 ==> s@ == Seq::<char>::empty(),
        decreases user_ids@.len() - i,
    {
        proof {
            assert(user_ids@.take(i + 1 as int).drop_last() =~= user_ids@.take(i as int));
            assert(user_ids@.take(i + 1 as int).last() == user_ids@[i as int]);
        }
        if i > 0 {
            s.append("\n");
            proof {
                reveal_strlit("\n");
            }
        }
        s.append("- <@");
        append_u64(&mut s, user_ids[i]);
        s.append(">");
        proof {
            assert(s@ =~= user_ids_text(user_ids@.take(i + 1 as int)));
        }
        i = i + 1;
    }
    proof {
        assert(user_ids@.take(user_ids@.len() as int) =~= user_ids@);
    }
    s
}

} // verus!
