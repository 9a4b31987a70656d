//! Intentionally limited automation. Not a general-purpose language.
//!
//! A rule file is a list of blocks:
//!
//! ```text
//! rule NAME {
//!     when EVENT
//!     if KEY == "VALUE"
//!     then ACTION
//! }
//! ```
//!
//! Lines are trimmed; empty lines and lines starting with `#` are skipped.

use crate::error::{coded, fails_with, DdResult, ErrorCode};
use crate::text::{
    chars_eq_str, chars_of, push_str, split_char, split_chars, starts_with, string_of, strip_prefix,
    strip_prefix_chars, sub_chars, trim, trim_chars,
};
use vstd::prelude::*;

verus! {

#[derive(Debug, Clone)]
pub struct Rule {
    pub name: String,
    pub when: String,
    pub filters: Vec<(String, String)>,
    pub action: String,
}

/// A rule as texts.
#[verifier::ext_equal]
pub struct RuleText {
    pub name: Seq<char>,
    pub when: Seq<char>,
    pub filters: Seq<(Seq<char>, Seq<char>)>,
    pub action: Seq<char>,
}

/// The texts of a list of key–value pairs.
pub open spec fn pair_texts(v: Seq<(String, String)>) -> Seq<(Seq<char>, Seq<char>)> {
    v.map_values(|p: (String, String)| (p.0@, p.1@))
}

/// A rule's texts.
pub open spec fn rule_text(r: Rule) -> RuleText {
    RuleText { name: r.name@, when: r.when@, filters: pair_texts(r.filters@), action: r.action@ }
}

/// `s` without the trailing occurrences of `c`.
pub open spec fn trim_end_char(s: Seq<char>, c: char) -> Seq<char>
    decreases s.len(),
{
    if s.len() > 0 && s.last() == c {
        trim_end_char(s.drop_last(), c)
    } else {
        s
    }
}

/// `s` without the leading occurrences of `c`.
pub open spec fn trim_start_char(s: Seq<char>, c: char) -> Seq<char>
    decreases s.len(),
{
    if s.len() > 0 && s[0] == c {
        trim_start_char(s.drop_first(), c)
    } else {
        s
    }
}

/// Position of the first `==` in `s` at or after `i`.
pub open spec fn find_eqeq(s: Seq<char>, i: nat) -> Option<nat>
    decreases s.len() - i,
{
    if i + 1 >= s.len() {
        None
    } else if s[i as int] == '=' && s[(i + 1) as int] == '=' {
        Some(i)
    } else {
        find_eqeq(s, i + 1)
    }
}

/// What reading the statement `line` (already trimmed) inside the open rule `r` does to it.
pub open spec fn apply_statement(r: RuleText, line: Seq<char>) -> RuleText {
    if strip_prefix(line, "when "@) is Some {
        RuleText { when: trim(strip_prefix(line, "when "@)->0), ..r }
    } else if strip_prefix(line, "if "@) is Some {
        let cond = trim(strip_prefix(line, "if "@)->0);
        match find_eqeq(cond, 0) {
            Some(p) => RuleText {
                filters: r.filters.push(
                    (
                        trim(cond.take(p as int)),
                        trim_end_char(trim_start_char(trim(cond.skip((p + 2) as int)), '"'), '"'),
                    ),
                ),
                ..r
            },
            None => r,
        }
    } else if strip_prefix(line, "then "@) is Some {
        RuleText { action: trim(strip_prefix(line, "then "@)->0), ..r }
    } else {
        r
    }
}

/// What reading one raw line does to the rules read so far and the rule being read.
pub open spec fn read_line(state: (Seq<RuleText>, Option<RuleText>), raw: Seq<char>) -> Result<
    (Seq<RuleText>, Option<RuleText>),
    ErrorCode,
> {
    let line = trim(raw);
    let (done, cur) = state;
    if line.len() == 0 || starts_with(line, "#"@) || line == "}"@ {
        if line == "}"@ && cur is Some {
            Ok((done.push(cur->0), None))
        } else {
            Ok(state)
        }
    } else if strip_prefix(line, "rule "@) is Some {
        let name = trim(trim_end_char(trim(strip_prefix(line, "rule "@)->0), '{'));
        Ok((done, Some(RuleText { name, when: Seq::empty(), filters: Seq::empty(), action: Seq::empty() })))
    } else {
        match cur {
            None => Err(ErrorCode::Ddp1001InvalidFrame),
            Some(r) => Ok((done, Some(apply_statement(r, line)))),
        }
    }
}

/// The state after reading the first `n` lines.
pub open spec fn read_lines(lines: Seq<Seq<char>>, n: nat) -> Result<(Seq<RuleText>, Option<RuleText>), ErrorCode>
    decreases n,
{
    if n == 0 {
        Ok((Seq::empty(), None))
    } else {
        match read_lines(lines, (n - 1) as nat) {
            Err(c) => Err(c),
            Ok(st) => read_line(st, lines[n - 1]),
        }
    }
}

/// The rules a text holds, or the failure's code: a statement outside any rule block fails
/// with `Ddp1001InvalidFrame`. A block still open at the end counts as closed.
pub open spec fn rules_of(src: Seq<char>) -> Result<Seq<RuleText>, ErrorCode> {
    let lines = split_char(src, '\n');
    match read_lines(lines, lines.len()) {
        Err(c) => Err(c),
        Ok((done, cur)) => Ok(
            match cur {
                Some(r) => done.push(r),
                None => done,
            },
        ),
    }
}

/// The texts of the rule being read, if any.
pub open spec fn opt_text(c: Option<Rule>) -> Option<RuleText> {
    match c {
        Some(r) => Some(rule_text(r)),
        None => None,
    }
}

/// The texts of a list of rules.
pub open spec fn rule_texts(v: Seq<Rule>) -> Seq<RuleText> {
    v.map_values(|r: Rule| rule_text(r))
}

pub(crate) fn trim_end_char_exec(s: &[char], c: char) -> (r: Vec<char>)
    ensures
        r@ == trim_end_char(s@, c),
{
    let mut n = s.len();
    assert(s@.take(n as int) =~= s@);
    while n > 0 && s[n - 1] == c
        invariant
            n <= s@.len(),
            trim_end_char(s@.take(n as int), c) == trim_end_char(s@, c),
        decreases n,
    {
        assert(s@.take(n as int).drop_last() =~= s@.take(n - 1));
        n -= 1;
    }
    let r = sub_chars(s, 0, n);
    assert(r@ =~= s@.take(n as int));
    r
}

fn trim_start_char_exec(s: &[char], c: char) -> (r: Vec<char>)
    ensures
        r@ == trim_start_char(s@, c),
{
    let mut i: usize = 0;
    assert(s@.skip(0) =~= s@);
    while i < s.len() && s[i] == c
        invariant
            i <= s@.len(),
            trim_start_char(s@.skip(i as int), c) == trim_start_char(s@, c),
        decreases s@.len() - i,
    {
        assert(s@.skip(i as int).drop_first() =~= s@.skip(i + 1));
        i += 1;
    }
    let r = sub_chars(s, i, s.len());
    assert(r@ =~= s@.skip(i as int));
    r
}

fn find_eqeq_exec(s: &[char]) -> (r: Option<usize>)
    ensures
        r matches Some(p) ==> find_eqeq(s@, 0) == Some(p as nat) && p + 1 < s@.len(),
        r is None ==> find_eqeq(s@, 0) is None,
{
    let mut i: usize = 0;
    while i < s.len() && i + 1 < s.len()
        invariant
            i <= s@.len(),
            find_eqeq(s@, 0) == find_eqeq(s@, i as nat),
        decreases s@.len() - i,
    {
        if s[i] == '=' && s[i + 1] == '=' {
            return Some(i);
        }
        i += 1;
    }
    None
}

fn lit(s: &str) -> (v: Vec<char>)
    ensures
        v@ == s@,
{
    chars_of(s)
}

proof fn lemma_read_err_sticks(lines: Seq<Seq<char>>, m: nat, n: nat)
    requires
        m <= n,
        read_lines(lines, m) is Err,
    ensures
        read_lines(lines, n) == read_lines(lines, m),
    decreases n - m,
{
    if m < n {
        lemma_read_err_sticks(lines, m, (n - 1) as nat);
    }
}

/// Reads the rules in a text; a statement outside any rule block fails with
/// `Ddp1001InvalidFrame`.
pub fn parse_rules(src: &str) -> (r: DdResult<Vec<Rule>>)
    ensures
        match rules_of(src@) {
            Ok(rs) => r is Ok && rule_texts(r->Ok_0@) == rs,
            Err(c) => fails_with(r, c),
        },
{
    let text = chars_of(src);
    let lines = split_chars(&text, '\n');
    let ghost ls = split_char(src@, '\n');
    let mut rules: Vec<Rule> = Vec::new();
    let mut cur: Option<Rule> = None;
    let p_rule = lit("rule ");
    let p_when = lit("when ");
    let p_if = lit("if ");
    let p_then = lit("then ");
    let mut i: usize = 0;
    assert(rule_texts(rules@) =~= Seq::<RuleText>::empty());
    while i < lines.len()
        invariant
            ls == split_char(src@, '\n'),
            lines@.len() == ls.len(),
            forall|k: int| 0 <= k < lines@.len() ==> (#[trigger] lines@[k])@ == ls[k],
            p_rule@ == "rule "@,
            p_when@ == "when "@,
            p_if@ == "if "@,
            p_then@ == "then "@,
            i <= lines@.len(),
            read_lines(ls, i as nat) == Ok::<_, ErrorCode>(
                (
                    rule_texts(rules@),
                    opt_text(cur),
                ),
            ),
        decreases lines@.len() - i,
    {
        let ghost st = (rule_texts(rules@), opt_text(cur));
        let line = trim_chars(&lines[i]);
        let ghost before = rules@;
        let closing = chars_eq_str(&line, "}");
        if line.len() == 0 || (line.len() > 0 && line[0] == '#') || closing {
            proof {
                let hash: Seq<char> = "#"@;
                reveal_strlit("#");
                if line@.len() > 0 && line@[0] == '#' {
                    assert(line@.take(1) =~= hash);
                }
                if line@.len() > 0 && line@[0] != '#' {
                    assert(line@.take(1)[0] != hash[0]);
                }
            }
            if closing {
                match cur {
                    Some(r) => {
                        rules.push(r);
                        cur = None;
                        assert(rule_texts(rules@) =~= rule_texts(before).push(rule_text(rules@.last())));
                    },
                    None => {},
                }
            }
        } else {
            proof {
                reveal_strlit("#");
                if starts_with(line@, "#"@) {
                    assert(line@.take(1)[0] == line@[0]);
                    assert(("#"@)[0] == '#');
                }
                assert(!starts_with(line@, "#"@));
            }
            match strip_prefix_chars(&line, &p_rule) {
                Some(rest) => {
                    let t = trim_chars(&rest);
                    let u = trim_end_char_exec(&t, '{');
                    let name = trim_chars(&u);
                    cur = Some(
                        Rule {
                            name: string_of(&name),
                            when: string_of(&Vec::new()),
                            filters: Vec::new(),
                            action: string_of(&Vec::new()),
                        },
                    );
                    assert(pair_texts(Seq::<(String, String)>::empty()) =~= Seq::empty());
                },
                None => {
                    let mut r = match cur {
                        Some(r) => r,
                        None => {
                            proof {
                                assert(lines@[i as int]@ == ls[i as int]);
                                assert(read_line(st, ls[i as int]) == Err::<(Seq<RuleText>, Option<RuleText>), ErrorCode>(ErrorCode::Ddp1001InvalidFrame));
                                assert(read_lines(ls, (i + 1) as nat) is Err);
                                lemma_read_err_sticks(ls, (i + 1) as nat, ls.len());
                            }
                            return Err(coded(ErrorCode::Ddp1001InvalidFrame, "rule statement outside block"));
                        },
                    };
                    let ghost r0 = rule_text(r);
                    match strip_prefix_chars(&line, &p_when) {
                        Some(w) => {
                            let v = trim_chars(&w);
                            r.when = string_of(&v);
                            assert(rule_text(r) =~= apply_statement(r0, line@));
                        },
                        None => match strip_prefix_chars(&line, &p_if) {
                            Some(c) => {
                                let cond = trim_chars(&c);
                                match find_eqeq_exec(&cond) {
                                    Some(p) => {
                                        let kpart = sub_chars(&cond, 0, p);
                                        let clen = cond.len();
                                        let vpart = sub_chars(&cond, p + 2, clen);
                                        let k = trim_chars(&kpart);
                                        let v0 = trim_chars(&vpart);
                                        let v1 = trim_start_char_exec(&v0, '"');
                                        let v = trim_end_char_exec(&v1, '"');
                                        proof {
                                            assert(kpart@ =~= cond@.take(p as int));
                                            assert(vpart@ =~= cond@.skip(p + 2));
                                        }
                                        let ghost fs = r.filters@;
                                        r.filters.push((string_of(&k), string_of(&v)));
                                        assert(pair_texts(r.filters@) =~= pair_texts(fs).push((k@, v@)));
                                        assert(rule_text(r) =~= apply_statement(r0, line@));
                                    },
                                    None => {
                                        assert(rule_text(r) =~= apply_statement(r0, line@));
                                    },
                                }
                            },
                            None => match strip_prefix_chars(&line, &p_then) {
                                Some(t) => {
                                    let v = trim_chars(&t);
                                    r.action = string_of(&v);
                                    assert(rule_text(r) =~= apply_statement(r0, line@));
                                },
                                None => {
                                    assert(rule_text(r) =~= apply_statement(r0, line@));
                                },
                            },
                        },
                    }
                    assert(rule_text(r) =~= apply_statement(r0, line@));
                    cur = Some(r);
                },
            }
        }
        proof {
            assert(lines@[i as int]@ == ls[i as int]);
            assert(read_lines(ls, (i + 1) as nat) == read_line(st, ls[i as int]));
        }
        i += 1;
    }
    match cur {
        Some(r) => {
            let ghost before = rules@;
            rules.push(r);
            assert(rule_texts(rules@) =~= rule_texts(before).push(rule_text(rules@.last())));
        },
        None => {},
    }
    Ok(rules)
}

} // verus!
