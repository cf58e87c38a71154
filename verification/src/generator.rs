use vstd::prelude::*;
use crate::text::{chars_of, string_from_chars};

verus! {

/// Unicode white space, as `char::is_whitespace` documents it (the `White_Space` property).
pub open spec fn is_white_space(c: char) -> bool {
    ||| ('\u{9}' <= c && c <= '\u{d}')
    ||| c == ' '
    ||| c == '\u{85}'
    ||| c == '\u{a0}'
    ||| c == '\u{1680}'
    ||| ('\u{2000}' <= c && c <= '\u{200a}')
    ||| c == '\u{2028}'
    ||| c == '\u{2029}'
    ||| c == '\u{202f}'
    ||| c == '\u{205f}'
    ||| c == '\u{3000}'
}

fn white_space(c: char) -> (r: bool)
    ensures
        r == is_white_space(c),
{
    ('\u{9}' <= c && c <= '\u{d}') || c == ' ' || c == '\u{85}' || c == '\u{a0}' || c == '\u{1680}'
        || ('\u{2000}' <= c && c <= '\u{200a}') || c == '\u{2028}' || c == '\u{2029}' || c
        == '\u{202f}' || c == '\u{205f}' || c == '\u{3000}'
}

/// The words of the rest of a text, given the word read so far: the maximal runs of
/// characters that are not white space, in order.
pub open spec fn words_after(s: Seq<char>, current: Seq<char>) -> Seq<Seq<char>>
    decreases s.len(),
{
    if s.len() == 0 {
        if current.len() > 0 {
            seq![current]
        } else {
            seq![]
        }
    } else if is_white_space(s[0]) {
        let rest = words_after(s.drop_first(), seq![]);
        if current.len() > 0 {
            seq![current] + rest
        } else {
            rest
        }
    } else {
        words_after(s.drop_first(), current.push(s[0]))
    }
}

/// The words of a text, as `str::split_whitespace` gives them.
pub open spec fn words(s: Seq<char>) -> Seq<Seq<char>> {
    words_after(s, seq![])
}

/// The models of a list of strings.
pub open spec fn texts(v: Seq<String>) -> Seq<Seq<char>> {
    v.map_values(|s: String| s@)
}

/// The words of a text, each as its own string.
pub fn split_words(text: &str) -> (r: Vec<String>)
    ensures
        texts(r@) == words(text@),
{
    let chars = chars_of(text);
    let mut out: Vec<String> = Vec::new();
    let mut current: Vec<char> = Vec::new();
    let mut i: usize = 0;
    assert(chars@.skip(0) =~= chars@);
    assert(texts(out@) + words_after(chars@, current@) =~= words(text@));
    while i < chars.len()
        invariant
            i <= chars.len(),
            chars@ == text@,
            texts(out@) + words_after(chars@.skip(i as int), current@) == words(text@),
        decreases chars.len() - i,
    {
        let c = chars[i];
        let ghost rest = chars@.skip(i as int);
        proof {
            assert(rest.drop_first() =~= chars@.skip(i + 1));
            assert(rest[0] == c);
        }
        if white_space(c) {
            if current.len() > 0 {
                let word = string_from_chars(&current);
                let ghost before = texts(out@);
                out.push(word);
                proof {
                    assert(texts(out@) =~= before.push(current@));
                    assert(texts(out@) + words_after(chars@.skip(i + 1), seq![]) =~= before + (
                    seq![current@] + words_after(chars@.skip(i + 1), seq![])));
                }
                current = Vec::new();
            } else {
                proof {
                    assert(current@ =~= Seq::<char>::empty());
                }
            }
        } else {
            current.push(c);
        }
        i = i + 1;
    }
    let ghost before = texts(out@);
    assert(chars@.skip(chars.len() as int) =~= Seq::<char>::empty());
    if current.len() > 0 {
        let word = string_from_chars(&current);
        out.push(word);
        assert(texts(out@) =~= before.push(current@));
        assert(before + seq![current@] =~= before.push(current@));
    } else {
        assert(before + Seq::<Seq<char>>::empty() =~= before);
    }
    out
}

/// The names of the teams of a generated world, in order.
pub open spec fn team_name_list() -> Seq<Seq<char>> {
    seq![
        "Alpha"@,
        "Beta"@,
        "Gamma"@,
        "Delta"@,
        "Epsilon"@,
        "Zeta"@,
        "Eta"@,
        "Theta"@,
        "Iota"@,
        "Kappa"@,
        "Lambda"@,
        "Mu"@,
    ]
}

/// Generates names for a world: given names, surnames and team names.
pub struct Generator {
    given_names: Vec<String>,
    surnames: Vec<String>,
    team_names: Vec<String>,
}

/// The model of a [`Generator`].
pub struct GeneratorView {
    pub given_names: Seq<Seq<char>>,
    pub surnames: Seq<Seq<char>>,
    pub team_names: Seq<Seq<char>>,
}

impl View for Generator {
    type V = GeneratorView;

    closed spec fn view(&self) -> GeneratorView {
        GeneratorView {
            given_names: texts(self.given_names@),
            surnames: texts(self.surnames@),
            team_names: texts(self.team_names@),
        }
    }
}

/// A copy of a list of strings.
pub fn copy_texts(v: &Vec<String>) -> (r: Vec<String>)
    ensures
        texts(r@) == texts(v@),
{
    let mut out: Vec<String> = Vec::new();
    let mut i: usize = 0;
    while i < v.len()
        invariant
            i <= v.len(),
            texts(out@) =~= texts(v@.take(i as int)),
        decreases v.len() - i,
    {
        let c = v[i].clone();
        let ghost before = out@;
        out.push(c);
        proof {
            assert(v@.take(i + 1) =~= v@.take(i as int).push(v@[i as int]));
            assert(texts(before.push(c)) =~= texts(before).push(c@));
            assert(texts(v@.take(i as int).push(v@[i as int])) =~= texts(v@.take(i as int)).push(
                v@[i as int]@,
            ));
        }
        i = i + 1;
    }
    assert(v@.take(v.len() as int) =~= v@);
    out
}

impl Generator {
    /// The given names a combatant's name is drawn from.
    pub fn given_names(&self) -> (r: Vec<String>)
        ensures
            texts(r@) == self@.given_names,
    {
        copy_texts(&self.given_names)
    }

    /// The surnames a combatant's name is drawn from.
    pub fn surnames(&self) -> (r: Vec<String>)
        ensures
            texts(r@) == self@.surnames,
    {
        copy_texts(&self.surnames)
    }

    /// The names given to the teams, in order.
    pub fn team_names(&self) -> (r: Vec<String>)
        ensures
            texts(r@) == self@.team_names,
    {
        copy_texts(&self.team_names)
    }

    /// A generator whose given names and surnames are the words of the two name lists, and
    /// whose team names are the twelve Greek letters from Alpha to Mu.
    pub fn new(given_names_text: &str, surnames_text: &str) -> (r: Generator)
        ensures
            r@.given_names == words(given_names_text@),
            r@.surnames == words(surnames_text@),
            r@.team_names == team_name_list(),
    {
        let given_names = split_words(given_names_text);
        let surnames = split_words(surnames_text);
        let mut team_names: Vec<String> = Vec::new();
        team_names.push("Alpha".to_owned());
        team_names.push("Beta".to_owned());
        team_names.push("Gamma".to_owned());
        team_names.push("Delta".to_owned());
        team_names.push("Epsilon".to_owned());
        team_names.push("Zeta".to_owned());
        team_names.push("Eta".to_owned());
        team_names.push("Theta".to_owned());
        team_names.push("Iota".to_owned());
        team_names.push("Kappa".to_owned());
        team_names.push("Lambda".to_owned());
        team_names.push("Mu".to_owned());
        assert(texts(team_names@) =~= team_name_list());
        Generator { given_names, surnames, team_names }
    }
}

/// The combatants of team `t` in a world split into teams of `per_team`: the `t`-th run of
/// `per_team` consecutive combatant ids.
pub open spec fn roster(per_team: nat, t: nat) -> Seq<u64> {
    Seq::new(per_team, |k: int| (t * per_team + k) as u64)
}

/// In a world of `team_count` teams of `per_team` combatants, every combatant belongs to
/// exactly one team: the one numbered by its id divided by `per_team`.
pub proof fn law_each_combatant_in_one_team(team_count: nat, per_team: nat, id: nat)
    requires
        id < team_count * per_team,
        team_count * per_team <= u64::MAX,
    ensures
        id / per_team < team_count,
        roster(per_team, id / per_team).contains(id as u64),
        forall|t: nat| t < team_count && t != id / per_team ==> !(#[trigger] roster(per_team, t)).contains(id as u64),
{
    assert(per_team > 0) by (nonlinear_arith)
        requires
            id < team_count * per_team,
    ;
    let q = id / per_team;
    let r = id % per_team;
    assert(id == q * per_team + r && r < per_team) by (nonlinear_arith)
        requires
            per_team > 0,
            q == id / per_team,
            r == id % per_team,
    ;
    assert(q < team_count) by (nonlinear_arith)
        requires
            id == q * per_team + r,
            id < team_count * per_team,
            r >= 0,
            per_team > 0,
    ;
    let members = roster(per_team, q);
    assert(members[r as int] == id as u64);
    assert forall|t: nat| t < team_count && t != q implies !(#[trigger] roster(per_team, t)).contains(id as u64) by {
        if roster(per_team, t).contains(id as u64) {
            let k = choose|k: int| 0 <= k < roster(per_team, t).len() && roster(per_team, t)[k] == id as u64;
            assert(t * per_team + k <= team_count * per_team) by (nonlinear_arith)
                requires
                    t < team_count,
                    0 <= k < per_team,
            ;
            assert(roster(per_team, t)[k] == (t * per_team + k) as u64);
            assert(t * per_team + k == id);
            assert(false) by (nonlinear_arith)
                requires
                    t * per_team + k == id,
                    id == q * per_team + r,
                    0 <= k < per_team,
                    0 <= r < per_team,
                    t != q,
            ;
        }
    }
}

impl Generator {
    /// The name of a combatant: the chosen given name, a space, and the chosen surname (the
    /// choices are made at random by the caller).
    pub fn combatant_name(&self, given: usize, surname: usize) -> (r: String)
        requires
            given < self@.given_names.len(),
            surname < self@.surnames.len(),
        ensures
            r@ == self@.given_names[given as int] + " "@ + self@.surnames[surname as int],
    {
        let mut chars = chars_of(self.given_names[given].as_str());
        chars.push(' ');
        let mut rest = chars_of(self.surnames[surname].as_str());
        chars.append(&mut rest);
        let name = string_from_chars(&chars);
        proof {
            assert(self@.given_names[given as int] == self.given_names@[given as int]@);
            assert(self@.surnames[surname as int] == self.surnames@[surname as int]@);
            reveal_strlit(" ");
        }
        assert(name@ =~= self@.given_names[given as int] + " "@ + self@.surnames[surname as int]);
        name
    }

    /// The teams of a world of `team_count` teams of `per_team` combatants (numbered from 0,
    /// team after team): for each team, its id, its name and its combatants.
    pub fn team_rosters(&self, team_count: u64, per_team: u64) -> (r: Vec<(u64, String, Vec<u64>)>)
        requires
            team_count <= self@.team_names.len(),
            team_count * per_team <= u64::MAX,
        ensures
            r@.len() == team_count,
            forall|t: int| 0 <= t < r@.len() ==> {
                &&& (#[trigger] r@[t]).0 == t
                &&& r@[t].1@ == self@.team_names[t]
                &&& r@[t].2@ == roster(per_team as nat, t as nat)
            },
    {
        let mut out: Vec<(u64, String, Vec<u64>)> = Vec::new();
        let mut start: u64 = 0;
        let mut t: u64 = 0;
        while t < team_count
            invariant
                t <= team_count,
                team_count <= self@.team_names.len(),
                team_count * per_team <= u64::MAX,
                start == t * per_team,
                out@.len() == t,
                forall|u: int| 0 <= u < out@.len() ==> {
                    &&& (#[trigger] out@[u]).0 == u
                    &&& out@[u].1@ == self@.team_names[u]
                    &&& out@[u].2@ == roster(per_team as nat, u as nat)
                },
            decreases team_count - t,
        {
            proof {
                assert((t + 1) * per_team <= team_count * per_team) by (nonlinear_arith)
                    requires
                        t < team_count,
                ;
                assert((t + 1) * per_team == t * per_team + per_team) by (nonlinear_arith);
            }
            let end = start + per_team;
            let mut members: Vec<u64> = Vec::new();
            let mut id = start;
            while id < end
                invariant
                    start <= id <= end,
                    members@ == Seq::new((id - start) as nat, |k: int| (start + k) as u64),
                decreases end - id,
            {
                members.push(id);
                id = id + 1;
                assert(members@ =~= Seq::new((id - start) as nat, |k: int| (start + k) as u64));
            }
            assert(members@ =~= roster(per_team as nat, t as nat));
            let n: usize = self.team_names.len();
            assert(t < n);
            let ti: usize = t as usize;
            assert(ti == t);
            let name = self.team_names[ti].clone();
            assert(self@.team_names[t as int] == self.team_names@[t as int]@);
            assert(name@ == self@.team_names[t as int]);
            assert(members@ == roster(per_team as nat, t as nat));
            let ghost prev = out@;
            let ghost members_view = members@;
            let ghost name_view = name@;
            out.push((t, name, members));
            proof {
                assert forall|u: int| 0 <= u < out@.len() implies {
                    &&& (#[trigger] out@[u]).0 == u
                    &&& out@[u].1@ == self@.team_names[u]
                    &&& out@[u].2@ == roster(per_team as nat, u as nat)
                } by {
                    if u < t {
                        assert(out@[u] == prev[u]);
                    } else {
                        assert(out@[u].1@ == name_view);
                        assert(out@[u].2@ == members_view);
                    }
                }
            }
            start = end;
            t = t + 1;
        }
        out
    }
}

} // verus!
