//! The command safety filter: decides whether a shell command proposed by the
//! model may run, in four layers (deny-list keywords, hard-coded `rm` patterns,
//! disguised destructive programs, and the program named by the first shell word).
use vstd::prelude::*;

use crate::config::SecurityConfig;
use crate::text::{
    chars_of, concat, concat3, contains, contains_chars, eq_ignore_ascii_case, lowercase,
    same_chars, to_lowercase,
};

verus! {

/// The words of a command line as `shell_words::split` reads them (quote removal,
/// backslash escapes, comments); `None` when a quote is left open.
pub uninterp spec fn shell_split(s: Seq<char>) -> Option<Seq<Seq<char>>>;

#[verifier::external_type_specification]
#[verifier::external_body]
pub struct ExShellParseError(shell_words::ParseError);

/// Word lists of the same length whose words pairwise differ at most in the case of
/// ASCII letters.
pub open spec fn words_alike(a: Seq<Seq<char>>, b: Seq<Seq<char>>) -> bool {
    a.len() == b.len() && forall|i: int|
        0 <= i < a.len() ==> eq_ignore_ascii_case(#[trigger] a[i], b[i])
}

/// Trusted: calls `shell_words::split`. Claims that it fails exactly when
/// `shell_split` is `None` and otherwise returns the words that `shell_split` names;
/// and that a text differing from `s` only in the case of ASCII letters splits alike
/// (the splitter treats no letter specially and copies letters into the words).
#[verifier::external_body]
fn split_shell_words(s: &str) -> (r: Result<Vec<String>, shell_words::ParseError>)
    ensures
        r is Ok <==> shell_split(s@) is Some,
        r matches Ok(v) ==> v.deep_view() == shell_split(s@)->0,
        forall|other: Seq<char>| #[trigger]
            eq_ignore_ascii_case(other, s@) ==> ((shell_split(other) is Some <==> r is Ok) && (
            r matches Ok(v) ==> words_alike(shell_split(other)->0, v.deep_view()))),
{
    shell_words::split(s)
}

/// The destructive programs that the filter looks for, in the order it checks them.
pub open spec fn dangerous_bases() -> Seq<Seq<char>> {
    seq!["rm"@, "mkfs"@, "dd"@, "shred"@, "wipefs"@, "fdisk"@, "parted"@]
}

/// `base` written in one of the ways that hide it from a plain keyword match:
/// followed by a space, a dash or a quote, inside `$(..)` or inside back-quotes.
pub open spec fn disguised(lc: Seq<char>, base: Seq<char>) -> bool {
    ||| contains(lc, base + " "@)
    ||| contains(lc, base + "-"@)
    ||| contains(lc, base + "'"@)
    ||| contains(lc, base + "\""@)
    ||| contains(lc, "$("@ + base + ")"@)
    ||| contains(lc, "`"@ + base + "`"@)
}

/// The command carries a recursive/force flag or names a sensitive directory.
pub open spec fn risky_target(lc: Seq<char>) -> bool {
    ||| contains(lc, "-r"@)
    ||| contains(lc, "-f"@)
    ||| contains(lc, "/dev/"@)
    ||| contains(lc, "/home"@)
    ||| contains(lc, "/tmp"@)
    ||| contains(lc, "/root"@)
}

/// The first of `bases` that appears disguised in `lc`.
pub open spec fn first_disguised(lc: Seq<char>, bases: Seq<Seq<char>>) -> Option<Seq<char>>
    decreases bases.len(),
{
    if bases.len() == 0 {
        None
    } else if disguised(lc, bases[0]) {
        Some(bases[0])
    } else {
        first_disguised(lc, bases.drop_first())
    }
}

/// The first deny-list entry whose lower-case form occurs in `lc`.
pub open spec fn first_denied(lc: Seq<char>, denylist: Seq<Seq<char>>) -> Option<Seq<char>>
    decreases denylist.len(),
{
    if denylist.len() == 0 {
        None
    } else if contains(lc, lowercase(denylist[0])) {
        Some(denylist[0])
    } else {
        first_denied(lc, denylist.drop_first())
    }
}

/// Some deny-list entry, lower-cased, equals `base`.
pub open spec fn denied_exactly(base: Seq<char>, denylist: Seq<Seq<char>>) -> bool {
    exists|k: int| 0 <= k < denylist.len() && base == lowercase(#[trigger] denylist[k])
}

/// The verdict on the shell words of a command: the first word, lower-cased, may
/// neither equal a lower-cased deny-list entry nor be one of the destructive programs.
pub open spec fn word_verdict(words: Seq<Seq<char>>, denylist: Seq<Seq<char>>) -> Result<
    (),
    Seq<char>,
> {
    if words.len() == 0 {
        Ok(())
    } else {
        let first = words[0];
        let base = lowercase(first);
        if denied_exactly(base, denylist) {
            Err("Base command '"@ + first + "' is blocked"@)
        } else if dangerous_bases().contains(base) {
            Err("Dangerous base command blocked: "@ + first)
        } else {
            Ok(())
        }
    }
}

/// The verdict of the safety filter on `command` with the given deny-list:
/// `Ok` when the command may run, else `Err` with the reason given to the user.
pub open spec fn safety_verdict(command: Seq<char>, denylist: Seq<Seq<char>>) -> Result<
    (),
    Seq<char>,
> {
    let lc = lowercase(command);
    match first_denied(lc, denylist) {
        Some(d) => Err("Command contains dangerous keyword: "@ + d),
        None => if contains(lc, "sudo rm"@) || contains(lc, "rm -rf /"@) {
            Err("Dangerous rm command blocked for safety."@)
        } else if risky_target(lc) && first_disguised(lc, dangerous_bases()) is Some {
            Err("Obfuscated dangerous command detected: "@ + first_disguised(
                lc,
                dangerous_bases(),
            )->0)
        } else {
            match shell_split(command) {
                Some(words) => word_verdict(words, denylist),
                None => Ok(()),
            }
        },
    }
}

/// A verdict with the reason taken by its characters.
pub open spec fn verdict_view(r: Result<(), String>) -> Result<(), Seq<char>> {
    match r {
        Ok(()) => Ok(()),
        Err(m) => Err(m@),
    }
}

/// The `i`-th destructive program.
fn dangerous_base(i: usize) -> (r: &'static str)
    requires
        i < 7,
    ensures
        r@ == dangerous_bases()[i as int],
{
    match i {
        0 => "rm",
        1 => "mkfs",
        2 => "dd",
        3 => "shred",
        4 => "wipefs",
        5 => "fdisk",
        _ => "parted",
    }
}

/// Whether `text` occurs in `lc`.
fn occurs(lc: &Vec<char>, text: &str) -> (r: bool)
    ensures
        r == contains(lc@, text@),
{
    let t = chars_of(text);
    contains_chars(lc, &t)
}

/// Whether `base` appears disguised in `lc`.
fn is_disguised(lc: &Vec<char>, base: &str) -> (r: bool)
    ensures
        r == disguised(lc@, base@),
{
    let p1 = concat(base, " ");
    let p2 = concat(base, "-");
    let p3 = concat(base, "'");
    let p4 = concat(base, "\"");
    let p5 = concat3("$(", base, ")");
    let p6 = concat3("`", base, "`");
    occurs(lc, p1.as_str()) || occurs(lc, p2.as_str()) || occurs(lc, p3.as_str()) || occurs(
        lc,
        p4.as_str(),
    ) || occurs(lc, p5.as_str()) || occurs(lc, p6.as_str())
}

/// Whether the lower-cased command carries a risky flag or target.
fn has_risky_target(lc: &Vec<char>) -> (r: bool)
    ensures
        r == risky_target(lc@),
{
    occurs(lc, "-r") || occurs(lc, "-f") || occurs(lc, "/dev/") || occurs(lc, "/home") || occurs(
        lc,
        "/tmp",
    ) || occurs(lc, "/root")
}

/// Checks the words of a shell command: refuses it when its first word, lower-cased,
/// equals a lower-cased deny-list entry or names a destructive program.
pub fn check_base_command(words: &Vec<String>, denylist: &Vec<String>) -> (r: Result<(), String>)
    ensures
        verdict_view(r) == word_verdict(words.deep_view(), denylist.deep_view()),
        words@.len() > 0 ==> forall|w: Seq<char>| #[trigger]
            eq_ignore_ascii_case(w, words.deep_view()[0]) ==> lowercase(w) == lowercase(
                words.deep_view()[0],
            ),
{
    if words.len() == 0 {
        return Ok(());
    }
    let first = &words[0];
    assert(words.deep_view()[0] == first@);
    let base_s = to_lowercase(first.as_str());
    let base = chars_of(base_s.as_str());
    let ghost d = denylist.deep_view();
    let mut i: usize = 0;
    while i < denylist.len()
        invariant
            i <= denylist@.len(),
            d == denylist.deep_view(),
            words@.len() > 0,
            first@ == words.deep_view()[0],
            base@ == lowercase(words.deep_view()[0]),
            forall|w: Seq<char>| #[trigger]
                eq_ignore_ascii_case(w, words.deep_view()[0]) ==> lowercase(w) == base@,
            forall|k: int| 0 <= k < i ==> base@ != lowercase(#[trigger] d[k]),
        decreases denylist@.len() - i,
    {
        let entry = to_lowercase(denylist[i].as_str());
        let entry_c = chars_of(entry.as_str());
        if same_chars(&base, &entry_c) {
            assert(base@ == lowercase(d[i as int]));
            return Err(concat3("Base command '", first.as_str(), "' is blocked"));
        }
        i = i + 1;
    }
    let mut j: usize = 0;
    while j < 7
        invariant
            j <= 7,
            words@.len() > 0,
            first@ == words.deep_view()[0],
            base@ == lowercase(words.deep_view()[0]),
            forall|w: Seq<char>| #[trigger]
                eq_ignore_ascii_case(w, words.deep_view()[0]) ==> lowercase(w) == base@,
            forall|k: int| 0 <= k < denylist@.len() ==> base@ != lowercase(
                #[trigger] denylist.deep_view()[k],
            ),
            forall|k: int| 0 <= k < j ==> dangerous_bases()[k] != base@,
        decreases 7 - j,
    {
        let b = chars_of(dangerous_base(j));
        if same_chars(&base, &b) {
            assert(dangerous_bases()[j as int] == base@);
            return Err(concat("Dangerous base command blocked: ", first.as_str()));
        }
        j = j + 1;
    }
    Ok(())
}

/// Decides whether `command` may run. Refuses it when its lower-cased text holds a
/// lower-cased deny-list entry, holds `sudo rm` or `rm -rf /`, holds a disguised
/// destructive program together with a risky flag or directory, or when its first
/// shell word is deny-listed or a destructive program. The reason is the `Err` text.
pub fn is_command_safe(command: &str, config: &SecurityConfig) -> (r: Result<(), String>)
    ensures
        verdict_view(r) == safety_verdict(command@, config.denylist.deep_view()),
        forall|other: Seq<char>| #[trigger]
            eq_ignore_ascii_case(other, command@) ==> (safety_verdict(
                other,
                config.denylist.deep_view(),
            ) is Ok) == (r is Ok),
{
    let lower_s = to_lowercase(command);
    let lc = chars_of(lower_s.as_str());
    let ghost d = config.denylist.deep_view();
    assert(d.skip(0) =~= d);
    let mut i: usize = 0;
    while i < config.denylist.len()
        invariant
            i <= config.denylist@.len(),
            d == config.denylist.deep_view(),
            lc@ == lowercase(command@),
            forall|other: Seq<char>| #[trigger]
                eq_ignore_ascii_case(other, command@) ==> lowercase(other) == lc@,
            first_denied(lc@, d) == first_denied(lc@, d.skip(i as int)),
        decreases config.denylist@.len() - i,
    {
        let entry = to_lowercase(config.denylist[i].as_str());
        let entry_c = chars_of(entry.as_str());
        assert(d.skip(i as int)[0] == d[i as int]);
        if contains_chars(&lc, &entry_c) {
            return Err(concat("Command contains dangerous keyword: ", config.denylist[i].as_str()));
        }
        assert(d.skip(i as int).drop_first() =~= d.skip(i + 1));
        i = i + 1;
    }
    assert(first_denied(lc@, d) is None) by {
        assert(d.skip(i as int).len() == 0);
    }
    if occurs(&lc, "sudo rm") || occurs(&lc, "rm -rf /") {
        return Err(String::from_str("Dangerous rm command blocked for safety."));
    }
    if has_risky_target(&lc) {
        assert(dangerous_bases().skip(0) =~= dangerous_bases());
        let mut j: usize = 0;
        while j < 7
            invariant
                j <= 7,
                lc@ == lowercase(command@),
                forall|other: Seq<char>| #[trigger]
                    eq_ignore_ascii_case(other, command@) ==> lowercase(other) == lc@,
                d == config.denylist.deep_view(),
                first_denied(lc@, d) is None,
                !contains(lc@, "sudo rm"@),
                !contains(lc@, "rm -rf /"@),
                risky_target(lc@),
                first_disguised(lc@, dangerous_bases()) == first_disguised(
                    lc@,
                    dangerous_bases().skip(j as int),
                ),
            decreases 7 - j,
        {
            let base = dangerous_base(j);
            assert(dangerous_bases().skip(j as int)[0] == dangerous_bases()[j as int]);
            if is_disguised(&lc, base) {
                return Err(concat("Obfuscated dangerous command detected: ", base));
            }
            assert(dangerous_bases().skip(j as int).drop_first() =~= dangerous_bases().skip(
                j + 1,
            ));
            j = j + 1;
        }
        assert(first_disguised(lc@, dangerous_bases()) is None) by {
            assert(dangerous_bases().skip(7).len() == 0);
        }
    }
    match split_shell_words(command) {
        Ok(words) => {
            let r = check_base_command(&words, &config.denylist);
            proof {
                assert forall|other: Seq<char>| #[trigger]
                    eq_ignore_ascii_case(other, command@) implies (safety_verdict(other, d) is Ok)
                    == (r is Ok) by {
                    let w2 = shell_split(other)->0;
                    let w1 = words.deep_view();
                    if w1.len() > 0 {
                        assert(eq_ignore_ascii_case(w2[0], w1[0]));
                        assert(lowercase(w2[0]) == lowercase(w1[0]));
                    }
                }
            }
            r
        },
        Err(_) => Ok(()),
    }
}

/// `first_denied` finds an entry exactly when some entry, lower-cased, occurs in `lc`.
proof fn lemma_first_denied(lc: Seq<char>, denylist: Seq<Seq<char>>)
    ensures
        first_denied(lc, denylist) is Some <==> exists|k: int|
            0 <= k < denylist.len() && contains(lc, lowercase(#[trigger] denylist[k])),
    decreases denylist.len(),
{
    if denylist.len() > 0 {
        let rest = denylist.drop_first();
        lemma_first_denied(lc, rest);
        if first_denied(lc, denylist) is Some && !contains(lc, lowercase(denylist[0])) {
            let k = choose|k: int| 0 <= k < rest.len() && contains(lc, lowercase(#[trigger] rest[k]));
            assert(denylist[k + 1] == rest[k]);
        }
        if (exists|k: int|
            0 <= k < denylist.len() && contains(lc, lowercase(#[trigger] denylist[k])))
            && !contains(lc, lowercase(denylist[0])) {
            let k = choose|k: int|
                0 <= k < denylist.len() && contains(lc, lowercase(#[trigger] denylist[k]));
            assert(rest[k - 1] == denylist[k]);
        }
    }
}

/// Law: giving the filter a larger deny-list never lets through a command that it
/// refused before (every entry of `smaller` is also an entry of `larger`).
pub proof fn law_larger_denylist_still_refuses(
    command: Seq<char>,
    smaller: Seq<Seq<char>>,
    larger: Seq<Seq<char>>,
)
    requires
        forall|k: int| 0 <= k < smaller.len() ==> larger.contains(#[trigger] smaller[k]),
        safety_verdict(command, smaller) is Err,
    ensures
        safety_verdict(command, larger) is Err,
{
    let lc = lowercase(command);
    lemma_first_denied(lc, smaller);
    lemma_first_denied(lc, larger);
    if first_denied(lc, smaller) is Some {
        let k = choose|k: int| 0 <= k < smaller.len() && contains(lc, lowercase(#[trigger] smaller[k]));
        assert(larger.contains(smaller[k]));
        let j = choose|j: int| 0 <= j < larger.len() && larger[j] == smaller[k];
        assert(contains(lc, lowercase(larger[j])));
    }
    if first_denied(lc, larger) is None {
        if let Some(words) = shell_split(command) {
            if words.len() > 0 && denied_exactly(lowercase(words[0]), smaller) {
                let base = lowercase(words[0]);
                let k = choose|k: int| 0 <= k < smaller.len() && base == lowercase(#[trigger] smaller[k]);
                assert(larger.contains(smaller[k]));
                let j = choose|j: int| 0 <= j < larger.len() && larger[j] == smaller[k];
                assert(base == lowercase(larger[j]));
            }
        }
    }
}

/// Law: a command that the filter lets through holds, case-insensitively, no
/// deny-list entry, neither `sudo rm` nor `rm -rf /`, and its first shell word is
/// neither a deny-list entry nor a destructive program.
pub proof fn law_passed_command_is_clean(command: Seq<char>, denylist: Seq<Seq<char>>)
    requires
        safety_verdict(command, denylist) is Ok,
    ensures
        forall|k: int|
            0 <= k < denylist.len() ==> !contains(lowercase(command), lowercase(#[trigger] denylist[k])),
        !contains(lowercase(command), "sudo rm"@),
        !contains(lowercase(command), "rm -rf /"@),
        shell_split(command) is Some && shell_split(command)->0.len() > 0 ==> {
            &&& !dangerous_bases().contains(lowercase(shell_split(command)->0[0]))
            &&& !denied_exactly(lowercase(shell_split(command)->0[0]), denylist)
        },
        forall|b: Seq<char>|
            #![trigger contains(lowercase(command), b + " "@)]
            seq!["rm"@, "mkfs"@, "dd"@, "shred"@, "wipefs"@, "fdisk"@, "parted"@].contains(b)
                && contains(lowercase(command), b + " "@) ==> {
                let lc = lowercase(command);
                !(contains(lc, "-r"@) || contains(lc, "-f"@) || contains(lc, "/dev/"@) || contains(
                    lc,
                    "/home"@,
                ) || contains(lc, "/tmp"@) || contains(lc, "/root"@))
            },
{
    let lc = lowercase(command);
    lemma_first_denied(lc, denylist);
    lemma_first_disguised(lc, dangerous_bases());
    assert(seq!["rm"@, "mkfs"@, "dd"@, "shred"@, "wipefs"@, "fdisk"@, "parted"@]
        =~= dangerous_bases());
}

/// `first_disguised` finds nothing exactly when none of the programs is disguised.
proof fn lemma_first_disguised(lc: Seq<char>, bases: Seq<Seq<char>>)
    ensures
        first_disguised(lc, bases) is None <==> forall|k: int|
            0 <= k < bases.len() ==> !disguised(lc, #[trigger] bases[k]),
    decreases bases.len(),
{
    if bases.len() > 0 {
        let rest = bases.drop_first();
        lemma_first_disguised(lc, rest);
        if first_disguised(lc, bases) is None {
            assert forall|k: int| 0 <= k < bases.len() implies !disguised(lc, #[trigger] bases[k]) by {
                if k > 0 {
                    assert(bases[k] == rest[k - 1]);
                }
            }
        }
        if forall|k: int| 0 <= k < bases.len() ==> !disguised(lc, #[trigger] bases[k]) {
            assert forall|k: int| 0 <= k < rest.len() implies !disguised(lc, #[trigger] rest[k]) by {
                assert(rest[k] == bases[k + 1]);
            }
        }
    }
}

/// Law: a command whose lower-cased text holds no lower-cased deny-list entry,
/// neither `sudo rm` nor `rm -rf /`, but holds `rm ` together with a recursive or
/// force flag or a sensitive directory, is refused as an obfuscated `rm`, wherever
/// in the command (after `&&`, `;` or a pipe) the `rm ` stands.
pub proof fn law_rm_with_risky_target_refused(command: Seq<char>, denylist: Seq<Seq<char>>)
    requires
        forall|k: int|
            0 <= k < denylist.len() ==> !contains(lowercase(command), lowercase(#[trigger] denylist[k])),
        !contains(lowercase(command), "sudo rm"@),
        !contains(lowercase(command), "rm -rf /"@),
        contains(lowercase(command), "rm "@),
        contains(lowercase(command), "-r"@) || contains(lowercase(command), "-f"@) || contains(
            lowercase(command),
            "/dev/"@,
        ) || contains(lowercase(command), "/home"@) || contains(lowercase(command), "/tmp"@)
            || contains(lowercase(command), "/root"@),
    ensures
        safety_verdict(command, denylist) == Err::<(), Seq<char>>(
            "Obfuscated dangerous command detected: rm"@,
        ),
{
    let lc = lowercase(command);
    lemma_first_denied(lc, denylist);
    reveal_strlit("rm");
    reveal_strlit(" ");
    reveal_strlit("rm ");
    reveal_strlit("Obfuscated dangerous command detected: ");
    reveal_strlit("Obfuscated dangerous command detected: rm");
    assert(dangerous_bases()[0] == "rm"@);
    assert("rm"@ + " "@ =~= "rm "@);
    assert("Obfuscated dangerous command detected: "@ + "rm"@ =~= "Obfuscated dangerous command detected: rm"@);
}

} // verus!
