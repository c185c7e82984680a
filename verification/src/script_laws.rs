//! What the firewall scripts promise: every rule that they create blocks what
//! leaves the machine.

use vstd::prelude::*;

use crate::ip::Ipv4Addr;
use crate::script::{app_list, firewall_text, package_list, quoted_list};
use crate::script::{global_rules, global_v4_rule, global_v6_rule, guarded_middle, guarded_opening};
use crate::script::{install_text, lemma_contains_concat, prefix_list, refresh_text, rule, rule_guard};
use crate::{geo, ip, network, text, trie, AppRoutingPolicy};

verus! {

/// The command that creates a rule.
pub open spec fn creation() -> Seq<char> {
    "New-NetFirewallRule"@
}

/// What makes a rule block everything that leaves by an adapter.
pub open spec fn outbound_block() -> Seq<char> {
    "-Direction Outbound -Action Block -Enabled True -Profile Any -InterfaceAlias $adapter.Name "@
}

/// Whether the rule that is created at `at` blocks: the command says so before
/// it ends.
pub open spec fn blocks_from(s: Seq<char>, at: int) -> bool {
    exists|j: int|
        at < j && #[trigger] text::occurs_at(s, outbound_block(), j) && !text::contains_text(
            s.subrange(at, j),
            "| Out-Null"@,
        )
}

/// Whether every rule that a script creates blocks.
pub open spec fn every_rule_blocks(s: Seq<char>) -> bool {
    forall|i: int| #[trigger] text::occurs_at(s, creation(), i) ==> blocks_from(s, i)
}

/// Whether three characters follow one another at `i`.
spec fn follow_at(s: Seq<char>, i: int, a: char, b: char, c: char) -> bool {
    s[i] == a && s[i + 1] == b && s[i + 2] == c
}

/// Whether three characters follow one another nowhere from `m` on before `k`.
spec fn lacks(s: Seq<char>, m: int, k: int, a: char, b: char, c: char) -> bool {
    forall|i: int| m <= i < k ==> !#[trigger] follow_at(s, i, a, b, c)
}

/// The same, looked up half by half.
spec fn searched(s: Seq<char>, m: int, k: int, a: char, b: char, c: char) -> bool
    decreases k - m,
{
    if k <= m {
        true
    } else if k == m + 1 {
        !follow_at(s, m, a, b, c)
    } else {
        searched(s, m, (m + k) / 2, a, b, c) && searched(s, (m + k) / 2, k, a, b, c)
    }
}

proof fn lemma_searched(s: Seq<char>, m: int, k: int, a: char, b: char, c: char)
    requires
        searched(s, m, k, a, b, c),
    ensures
        lacks(s, m, k, a, b, c),
    decreases k - m,
{
    if k > m + 1 {
        let half = (m + k) / 2;
        lemma_searched(s, m, half, a, b, c);
        lemma_searched(s, half, k, a, b, c);
    }
}

proof fn lemma_lacks_concat(x: Seq<char>, y: Seq<char>, a: char, b: char, c: char)
    requires
        lacks(x, 0, x.len() - 2, a, b, c),
        lacks(y, 0, y.len() - 2, a, b, c),
        x.len() == 0 || y.len() == 0 || (!(x.last() == b && y[0] == c) && !(x.last() == a && y[0]
            == b)),
    ensures
        lacks(x + y, 0, x.len() + y.len() - 2, a, b, c),
{
    let s = x + y;
    assert forall|i: int| 0 <= i < s.len() - 2 implies !#[trigger] follow_at(s, i, a, b, c) by {
        if i + 2 < x.len() {
            assert(!follow_at(x, i, a, b, c));
        } else if i >= x.len() {
            assert(!follow_at(y, i - x.len(), a, b, c));
        } else {
            assert(s[i] == x[i]);
        }
    }
}

/// Whether a text allows nothing, and goes on doing so behind any other.
spec fn calm(s: Seq<char>) -> bool {
    &&& s.len() > 0
    &&& lacks(s, 0, s.len() - 2, ' ', 'A', 'l')
    &&& s[0] != 'A' && s[0] != 'l'
}

/// Whether a text creates no rule and allows nothing, and goes on doing so
/// between any others of this kind.
spec fn quiet(s: Seq<char>) -> bool {
    &&& calm(s)
    &&& lacks(s, 0, s.len() - 2, 'w', '-', 'N')
    &&& s[0] != 'N'
    &&& s.last() != 'w' && s.last() != '-'
}

/// Whether a text does not end a command.
spec fn unpiped(s: Seq<char>) -> bool {
    &&& s.len() > 0
    &&& lacks(s, 0, s.len() - 2, '|', ' ', 'O')
    &&& s[0] != 'O'
    &&& s.last() != '|'
}

proof fn lemma_calm_concat(x: Seq<char>, y: Seq<char>)
    requires
        calm(x),
        calm(y),
    ensures
        calm(x + y),
        (x + y)[0] == x[0],
        (x + y).last() == y.last(),
{
    lemma_lacks_concat(x, y, ' ', 'A', 'l');
}

proof fn lemma_quiet_concat(x: Seq<char>, y: Seq<char>)
    requires
        quiet(x),
        quiet(y),
    ensures
        quiet(x + y),
        (x + y)[0] == x[0],
        (x + y).last() == y.last(),
{
    lemma_calm_concat(x, y);
    lemma_lacks_concat(x, y, 'w', '-', 'N');
}

proof fn lemma_unpiped_concat(x: Seq<char>, y: Seq<char>)
    requires
        unpiped(x),
        unpiped(y),
    ensures
        unpiped(x + y),
{
    lemma_lacks_concat(x, y, '|', ' ', 'O');
}

proof fn lemma_calm_allows_nothing(s: Seq<char>)
    requires
        calm(s),
    ensures
        !text::contains_text(s, "-Action Allow"@),
{
    reveal_strlit("-Action Allow");
    if text::contains_text(s, "-Action Allow"@) {
        let at = choose|at: int| text::occurs_at(s, "-Action Allow"@, at);
        let found = s.subrange(at, at + 13);
        assert(found[7] == s[at + 7] && found[8] == s[at + 8] && found[9] == s[at + 9]);
        assert(follow_at(s, at + 7, ' ', 'A', 'l'));
    }
}

proof fn lemma_creation_at(s: Seq<char>, at: int)
    requires
        text::occurs_at(s, creation(), at),
    ensures
        creation().len() == 19,
        s[at + 2] == 'w' && s[at + 3] == '-' && s[at + 4] == 'N',
{
    reveal_strlit("New-NetFirewallRule");
    let found = s.subrange(at, at + 19);
    assert(found[2] == s[at + 2] && found[3] == s[at + 3] && found[4] == s[at + 4]);
}

proof fn lemma_quiet_creates_nothing(s: Seq<char>)
    requires
        quiet(s),
    ensures
        !text::contains_text(s, creation()),
        every_rule_blocks(s),
{
    assert forall|at: int| !#[trigger] text::occurs_at(s, creation(), at) by {
        if text::occurs_at(s, creation(), at) {
            lemma_creation_at(s, at);
            assert(follow_at(s, at + 2, 'w', '-', 'N'));
        }
    }
}

/// The characters of the command that creates a rule.
spec fn in_creation(c: char) -> bool {
    ||| c == 'N' || c == 'e' || c == 'w' || c == '-' || c == 't' || c == 'F'
    ||| c == 'i' || c == 'r' || c == 'a' || c == 'l' || c == 'R' || c == 'u'
}

proof fn lemma_creation_chars(k: int)
    requires
        0 <= k < creation().len(),
    ensures
        in_creation(creation()[k]),
{
    reveal_strlit("New-NetFirewallRule");
}

proof fn lemma_blocks_concat(x: Seq<char>, y: Seq<char>)
    requires
        every_rule_blocks(x),
        every_rule_blocks(y),
        x.len() == 0 || y.len() == 0 || !in_creation(x.last()) || !in_creation(y[0]),
    ensures
        every_rule_blocks(x + y),
{
    let s = x + y;
    let n = creation().len() as int;
    let d = outbound_block();
    assert forall|i: int| #[trigger] text::occurs_at(s, creation(), i) implies blocks_from(s, i) by {
        lemma_creation_at(s, i);
        let found = s.subrange(i, i + n);
        if i + n <= x.len() {
            assert(x.subrange(i, i + n) =~= found);
            assert(text::occurs_at(x, creation(), i));
            let j = choose|j: int|
                i < j && #[trigger] text::occurs_at(x, d, j) && !text::contains_text(
                    x.subrange(i, j),
                    "| Out-Null"@,
                );
            assert(s.subrange(j, j + d.len()) =~= x.subrange(j, j + d.len()));
            assert(text::occurs_at(s, d, j));
            assert(s.subrange(i, j) =~= x.subrange(i, j));
        } else if i >= x.len() {
            let k = i - x.len();
            assert(y.subrange(k, k + n) =~= found);
            assert(text::occurs_at(y, creation(), k));
            let j = choose|j: int|
                k < j && #[trigger] text::occurs_at(y, d, j) && !text::contains_text(
                    y.subrange(k, j),
                    "| Out-Null"@,
                );
            let after = x.len() + j;
            assert(s.subrange(after, after + d.len()) =~= y.subrange(j, j + d.len()));
            assert(text::occurs_at(s, d, after));
            assert(s.subrange(i, after) =~= y.subrange(k, j));
        } else {
            let cut = x.len() - i;
            assert(found[cut - 1] == x.last());
            assert(found[cut] == y[0]);
            lemma_creation_chars(cut - 1);
            lemma_creation_chars(cut);
        }
    }
}

/// A text that creates one rule, at `at`, and says at `block` that it blocks,
/// before the command ends.
proof fn lemma_one_rule(s: Seq<char>, at: int, block: int)
    requires
        0 <= at < block,
        text::occurs_at(s, outbound_block(), block),
        lacks(s, 0, at + 2, 'w', '-', 'N'),
        lacks(s, at + 3, s.len() - 2, 'w', '-', 'N'),
        lacks(s, 0, block - 2, '|', ' ', 'O'),
    ensures
        every_rule_blocks(s),
{
    reveal_strlit("| Out-Null");
    assert forall|i: int| #[trigger] text::occurs_at(s, creation(), i) implies blocks_from(s, i) by {
        lemma_creation_at(s, i);
        assert(follow_at(s, i + 2, 'w', '-', 'N'));
        assert(i == at);
        let part = s.subrange(at, block);
        assert(!text::contains_text(part, "| Out-Null"@)) by {
            if text::contains_text(part, "| Out-Null"@) {
                let k = choose|k: int| text::occurs_at(part, "| Out-Null"@, k);
                let found = part.subrange(k, k + 10);
                assert(found[0] == part[k] && found[1] == part[k + 1] && found[2] == part[k + 2]);
                assert(follow_at(s, at + k, '|', ' ', 'O'));
            }
        }
        assert(text::occurs_at(s, outbound_block(), block));
    }
}

#[verifier::spinoff_prover]
proof fn lemma_global_v4_blocks()
    ensures
        every_rule_blocks(global_v4_rule()),
        calm(global_v4_rule()),
        global_v4_rule()[0] == 't' && global_v4_rule().last() == '}',
{
    reveal_strlit("try { New-NetFirewallRule -Name ('MouseVPN-KS-v4-'+$adapter.ifIndex) -DisplayName ('MouseVPN kill switch IPv4 '+$adapter.Name) -Group 'MouseVPN Kill Switch' -Direction Outbound -Action Block -Enabled True -Profile Any -InterfaceAlias $adapter.Name -RemoteAddress $blocked | Out-Null } catch { throw ('IPv4 firewall rule failed on adapter '+$adapter.Name+': '+$_.Exception.Message) }");
    reveal_strlit("-Direction Outbound -Action Block -Enabled True -Profile Any -InterfaceAlias $adapter.Name ");
    let rule = global_v4_rule();
    assert(rule.subrange(157, 248) =~= outbound_block());
    reveal_with_fuel(searched, 11);
    lemma_searched(rule, 0, 380, ' ', 'A', 'l');
    lemma_searched(rule, 0, 8, 'w', '-', 'N');
    lemma_searched(rule, 9, 380, 'w', '-', 'N');
    lemma_searched(rule, 0, 155, '|', ' ', 'O');
    lemma_one_rule(rule, 6, 157);
}

#[verifier::spinoff_prover]
proof fn lemma_global_v6_blocks()
    ensures
        every_rule_blocks(global_v6_rule()),
        calm(global_v6_rule()),
        global_v6_rule()[0] == 't' && global_v6_rule().last() == '}',
{
    reveal_strlit("try { New-NetFirewallRule -Name ('MouseVPN-KS-v6-'+$adapter.ifIndex) -DisplayName ('MouseVPN kill switch IPv6 '+$adapter.Name) -Group 'MouseVPN Kill Switch' -Direction Outbound -Action Block -Enabled True -Profile Any -InterfaceAlias $adapter.Name -RemoteAddress 'Internet6' | Out-Null } catch { throw ('IPv6 firewall rule failed on adapter '+$adapter.Name+': '+$_.Exception.Message) }");
    reveal_strlit("-Direction Outbound -Action Block -Enabled True -Profile Any -InterfaceAlias $adapter.Name ");
    let rule = global_v6_rule();
    assert(rule.subrange(157, 248) =~= outbound_block());
    reveal_with_fuel(searched, 11);
    lemma_searched(rule, 0, 383, ' ', 'A', 'l');
    lemma_searched(rule, 0, 8, 'w', '-', 'N');
    lemma_searched(rule, 9, 383, 'w', '-', 'N');
    lemma_searched(rule, 0, 155, '|', ' ', 'O');
    lemma_one_rule(rule, 6, 157);
}

/// The beginning of a rule, up to its title.
spec fn rule_opening() -> Seq<char> {
    " { try { New-NetFirewallRule -Name $name -DisplayName ('"@
}

/// The part of a rule behind its title.
spec fn rule_middle() -> Seq<char> {
    " '+$adapter.Name) -Group 'MouseVPN Kill Switch' -Direction Outbound -Action Block -Enabled True -Profile Any -InterfaceAlias $adapter.Name "@
}

#[verifier::spinoff_prover]
proof fn lemma_rule_frame()
    ensures
        rule_opening().len() == 56,
        calm(rule_opening()),
        unpiped(rule_opening()),
        lacks(rule_opening(), 0, 11, 'w', '-', 'N'),
        lacks(rule_opening(), 12, 54, 'w', '-', 'N'),
        rule_opening()[0] == ' ' && rule_opening().last() == '\'',
        quiet(rule_middle()),
        unpiped(rule_middle()),
        text::occurs_at(rule_middle(), outbound_block(), 48),
        rule_middle().last() == ' ',
{
    reveal_strlit(" { try { New-NetFirewallRule -Name $name -DisplayName ('");
    reveal_strlit(" '+$adapter.Name) -Group 'MouseVPN Kill Switch' -Direction Outbound -Action Block -Enabled True -Profile Any -InterfaceAlias $adapter.Name ");
    reveal_strlit("-Direction Outbound -Action Block -Enabled True -Profile Any -InterfaceAlias $adapter.Name ");
    let opening = rule_opening();
    let middle = rule_middle();
    assert(middle.subrange(48, 139) =~= outbound_block());
    reveal_with_fuel(searched, 11);
    lemma_searched(opening, 0, 54, ' ', 'A', 'l');
    lemma_searched(opening, 0, 54, '|', ' ', 'O');
    lemma_searched(opening, 0, 11, 'w', '-', 'N');
    lemma_searched(opening, 12, 54, 'w', '-', 'N');
    lemma_searched(middle, 0, 137, ' ', 'A', 'l');
    lemma_searched(middle, 0, 137, 'w', '-', 'N');
    lemma_searched(middle, 0, 137, '|', ' ', 'O');
}

/// The rule that is created with one title blocks.
proof fn lemma_rule_core(title: Seq<char>)
    requires
        quiet(title),
        unpiped(title),
    ensures
        every_rule_blocks(rule_opening() + title + rule_middle()),
        calm(rule_opening() + title + rule_middle()),
        (rule_opening() + title + rule_middle())[0] == ' ',
        (rule_opening() + title + rule_middle()).last() == ' ',
{
    lemma_rule_frame();
    let opening = rule_opening();
    let middle = rule_middle();
    let tail = title + middle;
    let core = opening + title + middle;
    assert(core =~= opening + tail);
    lemma_quiet_concat(title, middle);
    lemma_calm_concat(opening, tail);
    lemma_unpiped_concat(title, middle);
    lemma_unpiped_concat(opening, tail);
    let block: int = 56 + title.len() as int + 48;
    assert(text::occurs_at(core, outbound_block(), block)) by {
        reveal_strlit("-Direction Outbound -Action Block -Enabled True -Profile Any -InterfaceAlias $adapter.Name ");
        assert(core.subrange(block, block + 91) =~= middle.subrange(48, 139));
    }
    assert forall|i: int| 0 <= i < core.len() - 2 && i != 11 implies !#[trigger] follow_at(
        core,
        i,
        'w', '-', 'N',
    ) by {
        if i + 2 < opening.len() {
            assert(!follow_at(opening, i, 'w', '-', 'N'));
        } else if i >= opening.len() {
            assert(!follow_at(tail, i - opening.len(), 'w', '-', 'N'));
        } else {
            assert(core[i] == opening[i]);
        }
    }
    lemma_one_rule(core, 9, block);
}

/// The ends of a rule, which create nothing.
#[verifier::spinoff_prover]
proof fn lemma_rule_ends()
    ensures
        quiet("$name=("@) && "$name=("@[0] == '$',
        quiet("); "@),
        quiet(" -RemoteAddress "@),
        quiet(" | Out-Null } catch { throw ('"@) && " | Out-Null } catch { throw ('"@[0] == ' ',
        quiet("+$_.Exception.Message) } }; "@) && "+$_.Exception.Message) } }; "@.last() == ' ',
{
    reveal_strlit("$name=(");
    reveal_strlit("); ");
    reveal_strlit(" -RemoteAddress ");
    reveal_strlit(" | Out-Null } catch { throw ('");
    reveal_strlit("+$_.Exception.Message) } }; ");
    reveal_with_fuel(searched, 11);
    lemma_searched("$name=("@, 0, 5, ' ', 'A', 'l');
    lemma_searched("$name=("@, 0, 5, 'w', '-', 'N');
    lemma_searched("); "@, 0, 1, ' ', 'A', 'l');
    lemma_searched("); "@, 0, 1, 'w', '-', 'N');
    lemma_searched(" -RemoteAddress "@, 0, 14, ' ', 'A', 'l');
    lemma_searched(" -RemoteAddress "@, 0, 14, 'w', '-', 'N');
    lemma_searched(" | Out-Null } catch { throw ('"@, 0, 28, ' ', 'A', 'l');
    lemma_searched(" | Out-Null } catch { throw ('"@, 0, 28, 'w', '-', 'N');
    lemma_searched("+$_.Exception.Message) } }; "@, 0, 26, ' ', 'A', 'l');
    lemma_searched("+$_.Exception.Message) } }; "@, 0, 26, 'w', '-', 'N');
}

/// Every rule blocks, whatever it is called and whatever it is for.
proof fn lemma_rule_blocks(
    guard: Seq<char>,
    name: Seq<char>,
    title: Seq<char>,
    target: Seq<char>,
    remote: Seq<char>,
    failure: Seq<char>,
)
    requires
        quiet(guard) && !in_creation(guard.last()),
        quiet(name),
        quiet(title) && unpiped(title),
        quiet(target),
        quiet(remote),
        quiet(failure),
    ensures
        every_rule_blocks(rule(guard, name, title, target, remote, failure)),
        calm(rule(guard, name, title, target, remote, failure)),
        rule(guard, name, title, target, remote, failure)[0] == '$',
        rule(guard, name, title, target, remote, failure).last() == ' ',
{
    lemma_rule_ends();
    let one = "$name=("@ + name;
    let two = one + "); "@;
    let pre = two + guard;
    lemma_quiet_concat("$name=("@, name);
    lemma_quiet_concat(one, "); "@);
    lemma_quiet_concat(two, guard);
    lemma_quiet_creates_nothing(pre);
    lemma_rule_core(title);
    let core = rule_opening() + title + rule_middle();
    let three = target + " -RemoteAddress "@;
    let four = three + remote;
    let five = four + " | Out-Null } catch { throw ('"@;
    let six = five + failure;
    let post = six + "+$_.Exception.Message) } }; "@;
    lemma_quiet_concat(target, " -RemoteAddress "@);
    lemma_quiet_concat(three, remote);
    lemma_quiet_concat(four, " | Out-Null } catch { throw ('"@);
    lemma_quiet_concat(five, failure);
    lemma_quiet_concat(six, "+$_.Exception.Message) } }; "@);
    lemma_quiet_creates_nothing(post);
    lemma_blocks_concat(pre, core);
    lemma_calm_concat(pre, core);
    let most = pre + core;
    lemma_blocks_concat(most, post);
    lemma_calm_concat(most, post);
    assert(rule(guard, name, title, target, remote, failure) =~= most + post);
}

#[verifier::spinoff_prover]
proof fn lemma_guards()
    ensures
        quiet(rule_guard(true)) && rule_guard(true).last() == ')',
        quiet(rule_guard(false)) && rule_guard(false).last() == ')',
{
    reveal_strlit("if (-not (Get-NetFirewallRule -Name $name -ErrorAction SilentlyContinue))");
    reveal_strlit("if ($true)");
    reveal_with_fuel(searched, 11);
    let guard = rule_guard(true);
    lemma_searched("if ($true)"@, 0, 8, ' ', 'A', 'l');
    lemma_searched("if ($true)"@, 0, 8, 'w', '-', 'N');
    lemma_searched(guard, 0, 71, ' ', 'A', 'l');
    lemma_searched(guard, 0, 71, 'w', '-', 'N');
}

#[verifier::spinoff_prover]
proof fn lemma_resolver_v4(only_missing: bool)
    ensures
        ({
            let text = rule(
                rule_guard(only_missing),
                "'MouseVPN-KS-v4-'+$adapter.ifIndex+'-dnscache'"@,
                "MouseVPN DNS Client kill switch IPv4"@,
                "-Service Dnscache"@,
                "$blocked"@,
                "DNS Client IPv4 firewall rule failed: '"@,
            );
            every_rule_blocks(text) && calm(text) && text[0] == '$' && text.last() == ' '
        }),
{
    lemma_guards();
    reveal_strlit("'MouseVPN-KS-v4-'+$adapter.ifIndex+'-dnscache'");
    reveal_strlit("MouseVPN DNS Client kill switch IPv4");
    reveal_strlit("-Service Dnscache");
    reveal_strlit("$blocked");
    reveal_strlit("DNS Client IPv4 firewall rule failed: '");
    reveal_with_fuel(searched, 11);
    lemma_searched("'MouseVPN-KS-v4-'+$adapter.ifIndex+'-dnscache'"@, 0, 44, ' ', 'A', 'l');
    lemma_searched("'MouseVPN-KS-v4-'+$adapter.ifIndex+'-dnscache'"@, 0, 44, 'w', '-', 'N');
    lemma_searched("MouseVPN DNS Client kill switch IPv4"@, 0, 34, ' ', 'A', 'l');
    lemma_searched("MouseVPN DNS Client kill switch IPv4"@, 0, 34, 'w', '-', 'N');
    lemma_searched("-Service Dnscache"@, 0, 15, ' ', 'A', 'l');
    lemma_searched("-Service Dnscache"@, 0, 15, 'w', '-', 'N');
    lemma_searched("$blocked"@, 0, 6, ' ', 'A', 'l');
    lemma_searched("$blocked"@, 0, 6, 'w', '-', 'N');
    lemma_searched("DNS Client IPv4 firewall rule failed: '"@, 0, 37, ' ', 'A', 'l');
    lemma_searched("DNS Client IPv4 firewall rule failed: '"@, 0, 37, 'w', '-', 'N');
    lemma_searched("MouseVPN DNS Client kill switch IPv4"@, 0, 34, '|', ' ', 'O');
    lemma_rule_blocks(
        rule_guard(only_missing),
        "'MouseVPN-KS-v4-'+$adapter.ifIndex+'-dnscache'"@,
        "MouseVPN DNS Client kill switch IPv4"@,
        "-Service Dnscache"@,
        "$blocked"@,
        "DNS Client IPv4 firewall rule failed: '"@,
    );
}

#[verifier::spinoff_prover]
proof fn lemma_resolver_v6(only_missing: bool)
    ensures
        ({
            let text = rule(
                rule_guard(only_missing),
                "'MouseVPN-KS-v6-'+$adapter.ifIndex+'-dnscache'"@,
                "MouseVPN DNS Client kill switch IPv6"@,
                "-Service Dnscache"@,
                "'Internet6'"@,
                "DNS Client IPv6 firewall rule failed: '"@,
            );
            every_rule_blocks(text) && calm(text) && text[0] == '$' && text.last() == ' '
        }),
{
    lemma_guards();
    reveal_strlit("'MouseVPN-KS-v6-'+$adapter.ifIndex+'-dnscache'");
    reveal_strlit("MouseVPN DNS Client kill switch IPv6");
    reveal_strlit("-Service Dnscache");
    reveal_strlit("'Internet6'");
    reveal_strlit("DNS Client IPv6 firewall rule failed: '");
    reveal_with_fuel(searched, 11);
    lemma_searched("'MouseVPN-KS-v6-'+$adapter.ifIndex+'-dnscache'"@, 0, 44, ' ', 'A', 'l');
    lemma_searched("'MouseVPN-KS-v6-'+$adapter.ifIndex+'-dnscache'"@, 0, 44, 'w', '-', 'N');
    lemma_searched("MouseVPN DNS Client kill switch IPv6"@, 0, 34, ' ', 'A', 'l');
    lemma_searched("MouseVPN DNS Client kill switch IPv6"@, 0, 34, 'w', '-', 'N');
    lemma_searched("-Service Dnscache"@, 0, 15, ' ', 'A', 'l');
    lemma_searched("-Service Dnscache"@, 0, 15, 'w', '-', 'N');
    lemma_searched("'Internet6'"@, 0, 9, ' ', 'A', 'l');
    lemma_searched("'Internet6'"@, 0, 9, 'w', '-', 'N');
    lemma_searched("DNS Client IPv6 firewall rule failed: '"@, 0, 37, ' ', 'A', 'l');
    lemma_searched("DNS Client IPv6 firewall rule failed: '"@, 0, 37, 'w', '-', 'N');
    lemma_searched("MouseVPN DNS Client kill switch IPv6"@, 0, 34, '|', ' ', 'O');
    lemma_rule_blocks(
        rule_guard(only_missing),
        "'MouseVPN-KS-v6-'+$adapter.ifIndex+'-dnscache'"@,
        "MouseVPN DNS Client kill switch IPv6"@,
        "-Service Dnscache"@,
        "'Internet6'"@,
        "DNS Client IPv6 firewall rule failed: '"@,
    );
}

#[verifier::spinoff_prover]
proof fn lemma_program_v4(only_missing: bool)
    ensures
        ({
            let text = rule(
                rule_guard(only_missing),
                "'MouseVPN-KS-v4-'+$adapter.ifIndex+'-'+$i"@,
                "MouseVPN selected app kill switch IPv4"@,
                "-Program $app"@,
                "$blocked"@,
                "Selected-app IPv4 firewall rule failed for '+$app+': '"@,
            );
            every_rule_blocks(text) && calm(text) && text[0] == '$' && text.last() == ' '
        }),
{
    lemma_guards();
    reveal_strlit("'MouseVPN-KS-v4-'+$adapter.ifIndex+'-'+$i");
    reveal_strlit("MouseVPN selected app kill switch IPv4");
    reveal_strlit("-Program $app");
    reveal_strlit("$blocked");
    reveal_strlit("Selected-app IPv4 firewall rule failed for '+$app+': '");
    reveal_with_fuel(searched, 11);
    lemma_searched("'MouseVPN-KS-v4-'+$adapter.ifIndex+'-'+$i"@, 0, 39, ' ', 'A', 'l');
    lemma_searched("'MouseVPN-KS-v4-'+$adapter.ifIndex+'-'+$i"@, 0, 39, 'w', '-', 'N');
    lemma_searched("MouseVPN selected app kill switch IPv4"@, 0, 36, ' ', 'A', 'l');
    lemma_searched("MouseVPN selected app kill switch IPv4"@, 0, 36, 'w', '-', 'N');
    lemma_searched("-Program $app"@, 0, 11, ' ', 'A', 'l');
    lemma_searched("-Program $app"@, 0, 11, 'w', '-', 'N');
    lemma_searched("$blocked"@, 0, 6, ' ', 'A', 'l');
    lemma_searched("$blocked"@, 0, 6, 'w', '-', 'N');
    lemma_searched("Selected-app IPv4 firewall rule failed for '+$app+': '"@, 0, 52, ' ', 'A', 'l');
    lemma_searched("Selected-app IPv4 firewall rule failed for '+$app+': '"@, 0, 52, 'w', '-', 'N');
    lemma_searched("MouseVPN selected app kill switch IPv4"@, 0, 36, '|', ' ', 'O');
    lemma_rule_blocks(
        rule_guard(only_missing),
        "'MouseVPN-KS-v4-'+$adapter.ifIndex+'-'+$i"@,
        "MouseVPN selected app kill switch IPv4"@,
        "-Program $app"@,
        "$blocked"@,
        "Selected-app IPv4 firewall rule failed for '+$app+': '"@,
    );
}

#[verifier::spinoff_prover]
proof fn lemma_program_v6(only_missing: bool)
    ensures
        ({
            let text = rule(
                rule_guard(only_missing),
                "'MouseVPN-KS-v6-'+$adapter.ifIndex+'-'+$i"@,
                "MouseVPN selected app kill switch IPv6"@,
                "-Program $app"@,
                "'Internet6'"@,
                "Selected-app IPv6 firewall rule failed for '+$app+': '"@,
            );
            every_rule_blocks(text) && calm(text) && text[0] == '$' && text.last() == ' '
        }),
{
    lemma_guards();
    reveal_strlit("'MouseVPN-KS-v6-'+$adapter.ifIndex+'-'+$i");
    reveal_strlit("MouseVPN selected app kill switch IPv6");
    reveal_strlit("-Program $app");
    reveal_strlit("'Internet6'");
    reveal_strlit("Selected-app IPv6 firewall rule failed for '+$app+': '");
    reveal_with_fuel(searched, 11);
    lemma_searched("'MouseVPN-KS-v6-'+$adapter.ifIndex+'-'+$i"@, 0, 39, ' ', 'A', 'l');
    lemma_searched("'MouseVPN-KS-v6-'+$adapter.ifIndex+'-'+$i"@, 0, 39, 'w', '-', 'N');
    lemma_searched("MouseVPN selected app kill switch IPv6"@, 0, 36, ' ', 'A', 'l');
    lemma_searched("MouseVPN selected app kill switch IPv6"@, 0, 36, 'w', '-', 'N');
    lemma_searched("-Program $app"@, 0, 11, ' ', 'A', 'l');
    lemma_searched("-Program $app"@, 0, 11, 'w', '-', 'N');
    lemma_searched("'Internet6'"@, 0, 9, ' ', 'A', 'l');
    lemma_searched("'Internet6'"@, 0, 9, 'w', '-', 'N');
    lemma_searched("Selected-app IPv6 firewall rule failed for '+$app+': '"@, 0, 52, ' ', 'A', 'l');
    lemma_searched("Selected-app IPv6 firewall rule failed for '+$app+': '"@, 0, 52, 'w', '-', 'N');
    lemma_searched("MouseVPN selected app kill switch IPv6"@, 0, 36, '|', ' ', 'O');
    lemma_rule_blocks(
        rule_guard(only_missing),
        "'MouseVPN-KS-v6-'+$adapter.ifIndex+'-'+$i"@,
        "MouseVPN selected app kill switch IPv6"@,
        "-Program $app"@,
        "'Internet6'"@,
        "Selected-app IPv6 firewall rule failed for '+$app+': '"@,
    );
}

#[verifier::spinoff_prover]
proof fn lemma_package_v4(only_missing: bool)
    ensures
        ({
            let text = rule(
                rule_guard(only_missing),
                "'MouseVPN-KS-v4-'+$adapter.ifIndex+'-package-'+$i"@,
                "MouseVPN selected package kill switch IPv4"@,
                "-Package $package"@,
                "$blocked"@,
                "Selected-package IPv4 firewall rule failed for '+$package+': '"@,
            );
            every_rule_blocks(text) && calm(text) && text[0] == '$' && text.last() == ' '
        }),
{
    lemma_guards();
    reveal_strlit("'MouseVPN-KS-v4-'+$adapter.ifIndex+'-package-'+$i");
    reveal_strlit("MouseVPN selected package kill switch IPv4");
    reveal_strlit("-Package $package");
    reveal_strlit("$blocked");
    reveal_strlit("Selected-package IPv4 firewall rule failed for '+$package+': '");
    reveal_with_fuel(searched, 11);
    lemma_searched("'MouseVPN-KS-v4-'+$adapter.ifIndex+'-package-'+$i"@, 0, 47, ' ', 'A', 'l');
    lemma_searched("'MouseVPN-KS-v4-'+$adapter.ifIndex+'-package-'+$i"@, 0, 47, 'w', '-', 'N');
    lemma_searched("MouseVPN selected package kill switch IPv4"@, 0, 40, ' ', 'A', 'l');
    lemma_searched("MouseVPN selected package kill switch IPv4"@, 0, 40, 'w', '-', 'N');
    lemma_searched("-Package $package"@, 0, 15, ' ', 'A', 'l');
    lemma_searched("-Package $package"@, 0, 15, 'w', '-', 'N');
    lemma_searched("$blocked"@, 0, 6, ' ', 'A', 'l');
    lemma_searched("$blocked"@, 0, 6, 'w', '-', 'N');
    lemma_searched("Selected-package IPv4 firewall rule failed for '+$package+': '"@, 0, 60, ' ', 'A', 'l');
    lemma_searched("Selected-package IPv4 firewall rule failed for '+$package+': '"@, 0, 60, 'w', '-', 'N');
    lemma_searched("MouseVPN selected package kill switch IPv4"@, 0, 40, '|', ' ', 'O');
    lemma_rule_blocks(
        rule_guard(only_missing),
        "'MouseVPN-KS-v4-'+$adapter.ifIndex+'-package-'+$i"@,
        "MouseVPN selected package kill switch IPv4"@,
        "-Package $package"@,
        "$blocked"@,
        "Selected-package IPv4 firewall rule failed for '+$package+': '"@,
    );
}

#[verifier::spinoff_prover]
proof fn lemma_package_v6(only_missing: bool)
    ensures
        ({
            let text = rule(
                rule_guard(only_missing),
                "'MouseVPN-KS-v6-'+$adapter.ifIndex+'-package-'+$i"@,
                "MouseVPN selected package kill switch IPv6"@,
                "-Package $package"@,
                "'Internet6'"@,
                "Selected-package IPv6 firewall rule failed for '+$package+': '"@,
            );
            every_rule_blocks(text) && calm(text) && text[0] == '$' && text.last() == ' '
        }),
{
    lemma_guards();
    reveal_strlit("'MouseVPN-KS-v6-'+$adapter.ifIndex+'-package-'+$i");
    reveal_strlit("MouseVPN selected package kill switch IPv6");
    reveal_strlit("-Package $package");
    reveal_strlit("'Internet6'");
    reveal_strlit("Selected-package IPv6 firewall rule failed for '+$package+': '");
    reveal_with_fuel(searched, 11);
    lemma_searched("'MouseVPN-KS-v6-'+$adapter.ifIndex+'-package-'+$i"@, 0, 47, ' ', 'A', 'l');
    lemma_searched("'MouseVPN-KS-v6-'+$adapter.ifIndex+'-package-'+$i"@, 0, 47, 'w', '-', 'N');
    lemma_searched("MouseVPN selected package kill switch IPv6"@, 0, 40, ' ', 'A', 'l');
    lemma_searched("MouseVPN selected package kill switch IPv6"@, 0, 40, 'w', '-', 'N');
    lemma_searched("-Package $package"@, 0, 15, ' ', 'A', 'l');
    lemma_searched("-Package $package"@, 0, 15, 'w', '-', 'N');
    lemma_searched("'Internet6'"@, 0, 9, ' ', 'A', 'l');
    lemma_searched("'Internet6'"@, 0, 9, 'w', '-', 'N');
    lemma_searched("Selected-package IPv6 firewall rule failed for '+$package+': '"@, 0, 60, ' ', 'A', 'l');
    lemma_searched("Selected-package IPv6 firewall rule failed for '+$package+': '"@, 0, 60, 'w', '-', 'N');
    lemma_searched("MouseVPN selected package kill switch IPv6"@, 0, 40, '|', ' ', 'O');
    lemma_rule_blocks(
        rule_guard(only_missing),
        "'MouseVPN-KS-v6-'+$adapter.ifIndex+'-package-'+$i"@,
        "MouseVPN selected package kill switch IPv6"@,
        "-Package $package"@,
        "'Internet6'"@,
        "Selected-package IPv6 firewall rule failed for '+$package+': '"@,
    );
}

#[verifier::spinoff_prover]
proof fn lemma_selective_frame()
    ensures
        quiet("$vpnApps=@("@),
        quiet("); $vpnPackages=@("@),
        quiet("); foreach ($adapter in $physical) { "@),
        quiet("$i=0; foreach ($app in $vpnApps) { "@),
        quiet("$i++ }; foreach ($package in $vpnPackages) { "@),
        quiet("$i++ } }"@),
        "$vpnApps=@("@.last() == '(',
        "); $vpnPackages=@("@[0] == ')' && "); $vpnPackages=@("@.last() == '(',
        "); foreach ($adapter in $physical) { "@[0] == ')' && "); foreach ($adapter in $physical) { "@.last() == ' ',
        "$i=0; foreach ($app in $vpnApps) { "@[0] == '$' && "$i=0; foreach ($app in $vpnApps) { "@.last() == ' ',
        "$i++ }; foreach ($package in $vpnPackages) { "@[0] == '$' && "$i++ }; foreach ($package in $vpnPackages) { "@.last() == ' ',
        "$i++ } }"@[0] == '$',
{
    reveal_strlit("$vpnApps=@(");
    reveal_strlit("); $vpnPackages=@(");
    reveal_strlit("); foreach ($adapter in $physical) { ");
    reveal_strlit("$i=0; foreach ($app in $vpnApps) { ");
    reveal_strlit("$i++ }; foreach ($package in $vpnPackages) { ");
    reveal_strlit("$i++ } }");
    reveal_with_fuel(searched, 11);
    lemma_searched("$vpnApps=@("@, 0, 9, ' ', 'A', 'l');
    lemma_searched("$vpnApps=@("@, 0, 9, 'w', '-', 'N');
    lemma_searched("); $vpnPackages=@("@, 0, 16, ' ', 'A', 'l');
    lemma_searched("); $vpnPackages=@("@, 0, 16, 'w', '-', 'N');
    lemma_searched("); foreach ($adapter in $physical) { "@, 0, 35, ' ', 'A', 'l');
    lemma_searched("); foreach ($adapter in $physical) { "@, 0, 35, 'w', '-', 'N');
    lemma_searched("$i=0; foreach ($app in $vpnApps) { "@, 0, 33, ' ', 'A', 'l');
    lemma_searched("$i=0; foreach ($app in $vpnApps) { "@, 0, 33, 'w', '-', 'N');
    lemma_searched("$i++ }; foreach ($package in $vpnPackages) { "@, 0, 43, ' ', 'A', 'l');
    lemma_searched("$i++ }; foreach ($package in $vpnPackages) { "@, 0, 43, 'w', '-', 'N');
    lemma_searched("$i++ } }"@, 0, 6, ' ', 'A', 'l');
    lemma_searched("$i++ } }"@, 0, 6, 'w', '-', 'N');
}

#[verifier::spinoff_prover]
proof fn lemma_global_frames()
    ensures
        quiet(guarded_opening()) && guarded_opening().last() == ' ',
        quiet(guarded_middle()) && guarded_middle()[0] == ' ' && guarded_middle().last() == ' ',
        quiet(" } }"@) && " } }"@[0] == ' ',
        quiet("foreach ($adapter in $physical) { "@) && "foreach ($adapter in $physical) { "@.last() == ' ',
        quiet("; "@) && "; "@[0] == ';' && "; "@.last() == ' ',
        quiet(" }"@) && " }"@[0] == ' ',
{
    reveal_strlit("foreach ($adapter in $physical) { if (-not (Get-NetFirewallRule -Name ('MouseVPN-KS-v4-'+$adapter.ifIndex) -ErrorAction SilentlyContinue)) { ");
    reveal_strlit(" }; if (-not (Get-NetFirewallRule -Name ('MouseVPN-KS-v6-'+$adapter.ifIndex) -ErrorAction SilentlyContinue)) { ");
    reveal_strlit(" } }");
    reveal_strlit("foreach ($adapter in $physical) { ");
    reveal_strlit("; ");
    reveal_strlit(" }");
    reveal_with_fuel(searched, 11);
    let opening = guarded_opening();
    let middle = guarded_middle();
    lemma_searched(opening, 0, 139, ' ', 'A', 'l');
    lemma_searched(opening, 0, 139, 'w', '-', 'N');
    lemma_searched(middle, 0, 109, ' ', 'A', 'l');
    lemma_searched(middle, 0, 109, 'w', '-', 'N');
    lemma_searched(" } }"@, 0, 2, ' ', 'A', 'l');
    lemma_searched(" } }"@, 0, 2, 'w', '-', 'N');
    lemma_searched("foreach ($adapter in $physical) { "@, 0, 32, ' ', 'A', 'l');
    lemma_searched("foreach ($adapter in $physical) { "@, 0, 32, 'w', '-', 'N');
}

proof fn lemma_five(a: Seq<char>, b: Seq<char>, c: Seq<char>, d: Seq<char>, e: Seq<char>)
    requires
        quiet(a) && quiet(c) && quiet(e),
        every_rule_blocks(b) && calm(b),
        every_rule_blocks(d) && calm(d),
        !in_creation(a.last()) && !in_creation(c[0]) && !in_creation(c.last()) && !in_creation(
            e[0],
        ),
    ensures
        every_rule_blocks(a + b + c + d + e),
        calm(a + b + c + d + e),
{
    lemma_quiet_creates_nothing(a);
    lemma_quiet_creates_nothing(c);
    lemma_quiet_creates_nothing(e);
    lemma_blocks_concat(a, b);
    lemma_calm_concat(a, b);
    lemma_blocks_concat(a + b, c);
    lemma_calm_concat(a + b, c);
    lemma_blocks_concat(a + b + c, d);
    lemma_calm_concat(a + b + c, d);
    lemma_blocks_concat(a + b + c + d, e);
    lemma_calm_concat(a + b + c + d, e);
}

proof fn lemma_global_rules_block(only_missing: bool)
    ensures
        every_rule_blocks(global_rules(only_missing)),
        calm(global_rules(only_missing)),
{
    lemma_global_v4_blocks();
    lemma_global_v6_blocks();
    lemma_global_frames();
    if only_missing {
        lemma_five(guarded_opening(), global_v4_rule(), guarded_middle(), global_v6_rule(), " } }"@);
    } else {
        lemma_five("foreach ($adapter in $physical) { "@, global_v4_rule(), "; "@, global_v6_rule(), " }"@);
    }
}

/// Whether a list that the user made names neither a command that creates a
/// rule nor an action that allows.
pub open spec fn is_harmless(list: Seq<char>) -> bool {
    !text::contains_text(list, "New-NetFirewallRule"@) && !text::contains_text(
        list,
        "-Action Allow"@,
    )
}

proof fn lemma_allows_nothing_concat(x: Seq<char>, y: Seq<char>)
    requires
        !text::contains_text(x, "-Action Allow"@),
        !text::contains_text(y, "-Action Allow"@),
        x.len() > 0 && (x.last() == '(' || x.last() == ')') || y.len() > 0 && (y[0] == '(' || y[0]
            == ')') || x.len() == 0 || y.len() == 0,
    ensures
        !text::contains_text(x + y, "-Action Allow"@),
{
    let needle = "-Action Allow"@;
    let s = x + y;
    reveal_strlit("-Action Allow");
    if text::contains_text(s, needle) {
        let at = choose|at: int| text::occurs_at(s, needle, at);
        let found = s.subrange(at, at + 13);
        if at + 13 <= x.len() {
            assert(x.subrange(at, at + 13) =~= found);
            assert(text::occurs_at(x, needle, at));
        } else if at >= x.len() {
            let k = at - x.len();
            assert(y.subrange(k, k + 13) =~= found);
            assert(text::occurs_at(y, needle, k));
        } else {
            let cut = x.len() - at;
            assert(found[cut - 1] == x.last());
            assert(found[cut] == y[0]);
            assert(needle[cut - 1] == found[cut - 1]);
            assert(needle[cut] == found[cut]);
        }
    }
}

/// Adds a text of rules behind another.
proof fn lemma_grow(x: Seq<char>, y: Seq<char>)
    requires
        every_rule_blocks(x) && calm(x),
        every_rule_blocks(y) && calm(y),
        !in_creation(x.last()),
    ensures
        every_rule_blocks(x + y),
        calm(x + y),
        (x + y).last() == y.last(),
        (x + y)[0] == x[0],
{
    lemma_blocks_concat(x, y);
    lemma_calm_concat(x, y);
}

/// The part of the selective rules behind the lists.
spec fn selective_tail(only_missing: bool) -> Seq<char> {
    let guard = rule_guard(only_missing);
    "); foreach ($adapter in $physical) { "@
        + rule(
            guard,
            "'MouseVPN-KS-v4-'+$adapter.ifIndex+'-dnscache'"@,
            "MouseVPN DNS Client kill switch IPv4"@,
            "-Service Dnscache"@,
            "$blocked"@,
            "DNS Client IPv4 firewall rule failed: '"@,
        )
        + rule(
            guard,
            "'MouseVPN-KS-v6-'+$adapter.ifIndex+'-dnscache'"@,
            "MouseVPN DNS Client kill switch IPv6"@,
            "-Service Dnscache"@,
            "'Internet6'"@,
            "DNS Client IPv6 firewall rule failed: '"@,
        )
        + "$i=0; foreach ($app in $vpnApps) { "@
        + rule(
            guard,
            "'MouseVPN-KS-v4-'+$adapter.ifIndex+'-'+$i"@,
            "MouseVPN selected app kill switch IPv4"@,
            "-Program $app"@,
            "$blocked"@,
            "Selected-app IPv4 firewall rule failed for '+$app+': '"@,
        )
        + rule(
            guard,
            "'MouseVPN-KS-v6-'+$adapter.ifIndex+'-'+$i"@,
            "MouseVPN selected app kill switch IPv6"@,
            "-Program $app"@,
            "'Internet6'"@,
            "Selected-app IPv6 firewall rule failed for '+$app+': '"@,
        )
        + "$i++ }; foreach ($package in $vpnPackages) { "@
        + rule(
            guard,
            "'MouseVPN-KS-v4-'+$adapter.ifIndex+'-package-'+$i"@,
            "MouseVPN selected package kill switch IPv4"@,
            "-Package $package"@,
            "$blocked"@,
            "Selected-package IPv4 firewall rule failed for '+$package+': '"@,
        )
        + rule(
            guard,
            "'MouseVPN-KS-v6-'+$adapter.ifIndex+'-package-'+$i"@,
            "MouseVPN selected package kill switch IPv6"@,
            "-Package $package"@,
            "'Internet6'"@,
            "Selected-package IPv6 firewall rule failed for '+$package+': '"@,
        )
        + "$i++ } }"@
}

proof fn lemma_selective_tail(only_missing: bool)
    ensures
        every_rule_blocks(selective_tail(only_missing)),
        calm(selective_tail(only_missing)),
        selective_tail(only_missing)[0] == ')',
{
    lemma_selective_frame();
    lemma_resolver_v4(only_missing);
    lemma_resolver_v6(only_missing);
    lemma_program_v4(only_missing);
    lemma_program_v6(only_missing);
    lemma_package_v4(only_missing);
    lemma_package_v6(only_missing);
    lemma_quiet_creates_nothing("); foreach ($adapter in $physical) { "@);
    lemma_quiet_creates_nothing("$i=0; foreach ($app in $vpnApps) { "@);
    lemma_quiet_creates_nothing("$i++ }; foreach ($package in $vpnPackages) { "@);
    lemma_quiet_creates_nothing("$i++ } }"@);
    let guard = rule_guard(only_missing);
    let part_0 = rule(
        guard,
        "'MouseVPN-KS-v4-'+$adapter.ifIndex+'-dnscache'"@,
        "MouseVPN DNS Client kill switch IPv4"@,
        "-Service Dnscache"@,
        "$blocked"@,
        "DNS Client IPv4 firewall rule failed: '"@,
    );
    lemma_grow("); foreach ($adapter in $physical) { "@, part_0);
    let upto_0 = "); foreach ($adapter in $physical) { "@ + part_0;
    let part_1 = rule(
        guard,
        "'MouseVPN-KS-v6-'+$adapter.ifIndex+'-dnscache'"@,
        "MouseVPN DNS Client kill switch IPv6"@,
        "-Service Dnscache"@,
        "'Internet6'"@,
        "DNS Client IPv6 firewall rule failed: '"@,
    );
    lemma_grow(upto_0, part_1);
    let upto_1 = upto_0 + part_1;
    let part_2 = "$i=0; foreach ($app in $vpnApps) { "@;
    lemma_grow(upto_1, part_2);
    let upto_2 = upto_1 + part_2;
    let part_3 = rule(
        guard,
        "'MouseVPN-KS-v4-'+$adapter.ifIndex+'-'+$i"@,
        "MouseVPN selected app kill switch IPv4"@,
        "-Program $app"@,
        "$blocked"@,
        "Selected-app IPv4 firewall rule failed for '+$app+': '"@,
    );
    lemma_grow(upto_2, part_3);
    let upto_3 = upto_2 + part_3;
    let part_4 = rule(
        guard,
        "'MouseVPN-KS-v6-'+$adapter.ifIndex+'-'+$i"@,
        "MouseVPN selected app kill switch IPv6"@,
        "-Program $app"@,
        "'Internet6'"@,
        "Selected-app IPv6 firewall rule failed for '+$app+': '"@,
    );
    lemma_grow(upto_3, part_4);
    let upto_4 = upto_3 + part_4;
    let part_5 = "$i++ }; foreach ($package in $vpnPackages) { "@;
    lemma_grow(upto_4, part_5);
    let upto_5 = upto_4 + part_5;
    let part_6 = rule(
        guard,
        "'MouseVPN-KS-v4-'+$adapter.ifIndex+'-package-'+$i"@,
        "MouseVPN selected package kill switch IPv4"@,
        "-Package $package"@,
        "$blocked"@,
        "Selected-package IPv4 firewall rule failed for '+$package+': '"@,
    );
    lemma_grow(upto_5, part_6);
    let upto_6 = upto_5 + part_6;
    let part_7 = rule(
        guard,
        "'MouseVPN-KS-v6-'+$adapter.ifIndex+'-package-'+$i"@,
        "MouseVPN selected package kill switch IPv6"@,
        "-Package $package"@,
        "'Internet6'"@,
        "Selected-package IPv6 firewall rule failed for '+$package+': '"@,
    );
    lemma_grow(upto_6, part_7);
    let upto_7 = upto_6 + part_7;
    let part_8 = "$i++ } }"@;
    lemma_grow(upto_7, part_8);
    let upto_8 = upto_7 + part_8;
    assert(selective_tail(only_missing) == upto_8);
}

/// Every rule that a firewall script creates blocks what leaves by the adapter
/// that it is for, and no rule allows anything: wherever the script creates a
/// rule, the command says so before it ends. This holds of both kinds of policy,
/// and whether or not rules that exist are left alone. A policy that selects
/// applications must not name one after the commands themselves.
pub proof fn every_firewall_rule_blocks(policy: AppRoutingPolicy, only_missing: bool)
    requires
        policy.mode is Include ==> is_harmless(app_list(policy)) && is_harmless(
            package_list(policy),
        ),
    ensures
        ({
            let s = firewall_text(policy, only_missing);
            &&& forall|i: int| #[trigger]
                text::occurs_at(s, "New-NetFirewallRule"@, i) ==> exists|j: int|
                    i < j && #[trigger] text::occurs_at(
                        s,
                        "-Direction Outbound -Action Block -Enabled True -Profile Any -InterfaceAlias $adapter.Name "@,
                        j,
                    ) && !text::contains_text(s.subrange(i, j), "| Out-Null"@)
            &&& !text::contains_text(s, "-Action Allow"@)
        }),
{
    let s = firewall_text(policy, only_missing);
    if policy.mode is Exclude {
        lemma_global_rules_block(only_missing);
        lemma_calm_allows_nothing(s);
    } else {
        let apps = app_list(policy);
        let packages = package_list(policy);
        let opening = "$vpnApps=@("@;
        let middle = "); $vpnPackages=@("@;
        let tail = selective_tail(only_missing);
        lemma_selective_frame();
        lemma_selective_tail(only_missing);
        lemma_quiet_creates_nothing(opening);
        lemma_quiet_creates_nothing(middle);
        assert(every_rule_blocks(apps)) by {
            assert forall|i: int| !#[trigger] text::occurs_at(apps, creation(), i) by {
                if text::occurs_at(apps, creation(), i) {
                    assert(text::contains_text(apps, creation()));
                }
            }
        }
        assert(every_rule_blocks(packages)) by {
            assert forall|i: int| !#[trigger] text::occurs_at(packages, creation(), i) by {
                if text::occurs_at(packages, creation(), i) {
                    assert(text::contains_text(packages, creation()));
                }
            }
        }
        let one = opening + apps;
        let two = one + middle;
        let three = two + packages;
        lemma_blocks_concat(opening, apps);
        lemma_blocks_concat(one, middle);
        assert(two.last() == '(');
        lemma_blocks_concat(two, packages);
        lemma_blocks_concat(three, tail);
        lemma_calm_allows_nothing(opening);
        lemma_calm_allows_nothing(middle);
        lemma_calm_allows_nothing(tail);
        lemma_allows_nothing_concat(opening, apps);
        lemma_allows_nothing_concat(one, middle);
        lemma_allows_nothing_concat(two, packages);
        lemma_allows_nothing_concat(three, tail);
        lemma_selective_split(policy, only_missing);
    }
    assert(every_rule_blocks(s));
    assert forall|i: int| #[trigger] text::occurs_at(s, "New-NetFirewallRule"@, i) implies exists|j: int|
        i < j && #[trigger] text::occurs_at(
            s,
            "-Direction Outbound -Action Block -Enabled True -Profile Any -InterfaceAlias $adapter.Name "@,
            j,
        ) && !text::contains_text(s.subrange(i, j), "| Out-Null"@) by {
        assert(text::occurs_at(s, creation(), i));
        assert(blocks_from(s, i));
    }
}

/// A text stands in itself with anything before and behind it.
proof fn lemma_contains_middle(a: Seq<char>, b: Seq<char>, c: Seq<char>)
    ensures
        text::contains_text(a + b + c, b),
{
    let s = a + b + c;
    assert(s.subrange(a.len() as int, (a.len() + b.len()) as int) =~= b);
    assert(text::occurs_at(s, b, a.len() as int));
}

/// A rule names what it is for and the addresses that it is about, and ends its
/// command there.
proof fn lemma_rule_names_its_target(
    guard: Seq<char>,
    name: Seq<char>,
    title: Seq<char>,
    target: Seq<char>,
    remote: Seq<char>,
    failure: Seq<char>,
)
    ensures
        text::contains_text(
            rule(guard, name, title, target, remote, failure),
            target + " -RemoteAddress "@ + remote + " | Out-Null"@,
        ),
        text::contains_text(rule(guard, name, title, target, remote, failure), name),
{
    reveal_strlit(" | Out-Null } catch { throw ('");
    reveal_strlit(" | Out-Null");
    let ending = " | Out-Null } catch { throw ('"@;
    let command = " | Out-Null"@;
    let left = ending.subrange(11, ending.len() as int);
    assert(ending =~= command + left);
    let before = "$name=("@ + name + "); "@ + guard + rule_opening() + title + rule_middle();
    let aim = target + " -RemoteAddress "@ + remote + command;
    let after = left + failure + "+$_.Exception.Message) } }; "@;
    let whole = rule(guard, name, title, target, remote, failure);
    assert(whole =~= before + aim + after);
    lemma_contains_middle(before, aim, after);
    let rest = "); "@ + guard + rule_opening() + title + rule_middle() + target
        + " -RemoteAddress "@ + remote + ending + failure + "+$_.Exception.Message) } }; "@;
    assert(whole =~= "$name=("@ + name + rest);
    lemma_contains_middle("$name=("@, name, rest);
}

/// The part of the selective rules behind the lists creates every rule.
proof fn lemma_tail_names_its_targets(only_missing: bool)
    ensures
        ({
            let s = selective_tail(only_missing);
            &&& text::contains_text(s, "-Service Dnscache"@ + " -RemoteAddress "@ + "$blocked"@ + " | Out-Null"@)
            &&& text::contains_text(s, "-Service Dnscache"@ + " -RemoteAddress "@ + "'Internet6'"@ + " | Out-Null"@)
            &&& text::contains_text(s, "-Program $app"@ + " -RemoteAddress "@ + "$blocked"@ + " | Out-Null"@)
            &&& text::contains_text(s, "-Program $app"@ + " -RemoteAddress "@ + "'Internet6'"@ + " | Out-Null"@)
            &&& text::contains_text(s, "-Package $package"@ + " -RemoteAddress "@ + "$blocked"@ + " | Out-Null"@)
            &&& text::contains_text(s, "-Package $package"@ + " -RemoteAddress "@ + "'Internet6'"@ + " | Out-Null"@)
            &&& text::contains_text(s, "foreach ($adapter in $physical) { "@)
            &&& text::contains_text(s, "foreach ($app in $vpnApps) { "@)
            &&& text::contains_text(s, "foreach ($package in $vpnPackages) { "@)
        }),
{
    let guard = rule_guard(only_missing);
    lemma_rule_names_its_target(
        guard,
        "'MouseVPN-KS-v4-'+$adapter.ifIndex+'-dnscache'"@,
        "MouseVPN DNS Client kill switch IPv4"@,
        "-Service Dnscache"@,
        "$blocked"@,
        "DNS Client IPv4 firewall rule failed: '"@,
    );
    lemma_rule_names_its_target(
        guard,
        "'MouseVPN-KS-v6-'+$adapter.ifIndex+'-dnscache'"@,
        "MouseVPN DNS Client kill switch IPv6"@,
        "-Service Dnscache"@,
        "'Internet6'"@,
        "DNS Client IPv6 firewall rule failed: '"@,
    );
    lemma_rule_names_its_target(
        guard,
        "'MouseVPN-KS-v4-'+$adapter.ifIndex+'-'+$i"@,
        "MouseVPN selected app kill switch IPv4"@,
        "-Program $app"@,
        "$blocked"@,
        "Selected-app IPv4 firewall rule failed for '+$app+': '"@,
    );
    lemma_rule_names_its_target(
        guard,
        "'MouseVPN-KS-v6-'+$adapter.ifIndex+'-'+$i"@,
        "MouseVPN selected app kill switch IPv6"@,
        "-Program $app"@,
        "'Internet6'"@,
        "Selected-app IPv6 firewall rule failed for '+$app+': '"@,
    );
    lemma_rule_names_its_target(
        guard,
        "'MouseVPN-KS-v4-'+$adapter.ifIndex+'-package-'+$i"@,
        "MouseVPN selected package kill switch IPv4"@,
        "-Package $package"@,
        "$blocked"@,
        "Selected-package IPv4 firewall rule failed for '+$package+': '"@,
    );
    lemma_rule_names_its_target(
        guard,
        "'MouseVPN-KS-v6-'+$adapter.ifIndex+'-package-'+$i"@,
        "MouseVPN selected package kill switch IPv6"@,
        "-Package $package"@,
        "'Internet6'"@,
        "Selected-package IPv6 firewall rule failed for '+$package+': '"@,
    );
    lemma_loops();
    let part_0 = rule(
        guard,
        "'MouseVPN-KS-v4-'+$adapter.ifIndex+'-dnscache'"@,
        "MouseVPN DNS Client kill switch IPv4"@,
        "-Service Dnscache"@,
        "$blocked"@,
        "DNS Client IPv4 firewall rule failed: '"@,
    );
    lemma_contains_concat("); foreach ($adapter in $physical) { "@, part_0, "foreach ($adapter in $physical) { "@);
    lemma_contains_concat("); foreach ($adapter in $physical) { "@, part_0, "-Service Dnscache"@ + " -RemoteAddress "@ + "$blocked"@ + " | Out-Null"@);
    let upto_0 = "); foreach ($adapter in $physical) { "@ + part_0;
    let part_1 = rule(
        guard,
        "'MouseVPN-KS-v6-'+$adapter.ifIndex+'-dnscache'"@,
        "MouseVPN DNS Client kill switch IPv6"@,
        "-Service Dnscache"@,
        "'Internet6'"@,
        "DNS Client IPv6 firewall rule failed: '"@,
    );
    lemma_contains_concat(upto_0, part_1, "foreach ($adapter in $physical) { "@);
    lemma_contains_concat(upto_0, part_1, "-Service Dnscache"@ + " -RemoteAddress "@ + "$blocked"@ + " | Out-Null"@);
    lemma_contains_concat(upto_0, part_1, "-Service Dnscache"@ + " -RemoteAddress "@ + "'Internet6'"@ + " | Out-Null"@);
    let upto_1 = upto_0 + part_1;
    let part_2 = "$i=0; foreach ($app in $vpnApps) { "@;
    lemma_contains_concat(upto_1, part_2, "foreach ($adapter in $physical) { "@);
    lemma_contains_concat(upto_1, part_2, "-Service Dnscache"@ + " -RemoteAddress "@ + "$blocked"@ + " | Out-Null"@);
    lemma_contains_concat(upto_1, part_2, "-Service Dnscache"@ + " -RemoteAddress "@ + "'Internet6'"@ + " | Out-Null"@);
    lemma_contains_concat(upto_1, part_2, "foreach ($app in $vpnApps) { "@);
    let upto_2 = upto_1 + part_2;
    let part_3 = rule(
        guard,
        "'MouseVPN-KS-v4-'+$adapter.ifIndex+'-'+$i"@,
        "MouseVPN selected app kill switch IPv4"@,
        "-Program $app"@,
        "$blocked"@,
        "Selected-app IPv4 firewall rule failed for '+$app+': '"@,
    );
    lemma_contains_concat(upto_2, part_3, "foreach ($adapter in $physical) { "@);
    lemma_contains_concat(upto_2, part_3, "-Service Dnscache"@ + " -RemoteAddress "@ + "$blocked"@ + " | Out-Null"@);
    lemma_contains_concat(upto_2, part_3, "-Service Dnscache"@ + " -RemoteAddress "@ + "'Internet6'"@ + " | Out-Null"@);
    lemma_contains_concat(upto_2, part_3, "foreach ($app in $vpnApps) { "@);
    lemma_contains_concat(upto_2, part_3, "-Program $app"@ + " -RemoteAddress "@ + "$blocked"@ + " | Out-Null"@);
    let upto_3 = upto_2 + part_3;
    let part_4 = rule(
        guard,
        "'MouseVPN-KS-v6-'+$adapter.ifIndex+'-'+$i"@,
        "MouseVPN selected app kill switch IPv6"@,
        "-Program $app"@,
        "'Internet6'"@,
        "Selected-app IPv6 firewall rule failed for '+$app+': '"@,
    );
    lemma_contains_concat(upto_3, part_4, "foreach ($adapter in $physical) { "@);
    lemma_contains_concat(upto_3, part_4, "-Service Dnscache"@ + " -RemoteAddress "@ + "$blocked"@ + " | Out-Null"@);
    lemma_contains_concat(upto_3, part_4, "-Service Dnscache"@ + " -RemoteAddress "@ + "'Internet6'"@ + " | Out-Null"@);
    lemma_contains_concat(upto_3, part_4, "foreach ($app in $vpnApps) { "@);
    lemma_contains_concat(upto_3, part_4, "-Program $app"@ + " -RemoteAddress "@ + "$blocked"@ + " | Out-Null"@);
    lemma_contains_concat(upto_3, part_4, "-Program $app"@ + " -RemoteAddress "@ + "'Internet6'"@ + " | Out-Null"@);
    let upto_4 = upto_3 + part_4;
    let part_5 = "$i++ }; foreach ($package in $vpnPackages) { "@;
    lemma_contains_concat(upto_4, part_5, "foreach ($adapter in $physical) { "@);
    lemma_contains_concat(upto_4, part_5, "-Service Dnscache"@ + " -RemoteAddress "@ + "$blocked"@ + " | Out-Null"@);
    lemma_contains_concat(upto_4, part_5, "-Service Dnscache"@ + " -RemoteAddress "@ + "'Internet6'"@ + " | Out-Null"@);
    lemma_contains_concat(upto_4, part_5, "foreach ($app in $vpnApps) { "@);
    lemma_contains_concat(upto_4, part_5, "-Program $app"@ + " -RemoteAddress "@ + "$blocked"@ + " | Out-Null"@);
    lemma_contains_concat(upto_4, part_5, "-Program $app"@ + " -RemoteAddress "@ + "'Internet6'"@ + " | Out-Null"@);
    lemma_contains_concat(upto_4, part_5, "foreach ($package in $vpnPackages) { "@);
    let upto_5 = upto_4 + part_5;
    let part_6 = rule(
        guard,
        "'MouseVPN-KS-v4-'+$adapter.ifIndex+'-package-'+$i"@,
        "MouseVPN selected package kill switch IPv4"@,
        "-Package $package"@,
        "$blocked"@,
        "Selected-package IPv4 firewall rule failed for '+$package+': '"@,
    );
    lemma_contains_concat(upto_5, part_6, "foreach ($adapter in $physical) { "@);
    lemma_contains_concat(upto_5, part_6, "-Service Dnscache"@ + " -RemoteAddress "@ + "$blocked"@ + " | Out-Null"@);
    lemma_contains_concat(upto_5, part_6, "-Service Dnscache"@ + " -RemoteAddress "@ + "'Internet6'"@ + " | Out-Null"@);
    lemma_contains_concat(upto_5, part_6, "foreach ($app in $vpnApps) { "@);
    lemma_contains_concat(upto_5, part_6, "-Program $app"@ + " -RemoteAddress "@ + "$blocked"@ + " | Out-Null"@);
    lemma_contains_concat(upto_5, part_6, "-Program $app"@ + " -RemoteAddress "@ + "'Internet6'"@ + " | Out-Null"@);
    lemma_contains_concat(upto_5, part_6, "foreach ($package in $vpnPackages) { "@);
    lemma_contains_concat(upto_5, part_6, "-Package $package"@ + " -RemoteAddress "@ + "$blocked"@ + " | Out-Null"@);
    let upto_6 = upto_5 + part_6;
    let part_7 = rule(
        guard,
        "'MouseVPN-KS-v6-'+$adapter.ifIndex+'-package-'+$i"@,
        "MouseVPN selected package kill switch IPv6"@,
        "-Package $package"@,
        "'Internet6'"@,
        "Selected-package IPv6 firewall rule failed for '+$package+': '"@,
    );
    lemma_contains_concat(upto_6, part_7, "foreach ($adapter in $physical) { "@);
    lemma_contains_concat(upto_6, part_7, "-Service Dnscache"@ + " -RemoteAddress "@ + "$blocked"@ + " | Out-Null"@);
    lemma_contains_concat(upto_6, part_7, "-Service Dnscache"@ + " -RemoteAddress "@ + "'Internet6'"@ + " | Out-Null"@);
    lemma_contains_concat(upto_6, part_7, "foreach ($app in $vpnApps) { "@);
    lemma_contains_concat(upto_6, part_7, "-Program $app"@ + " -RemoteAddress "@ + "$blocked"@ + " | Out-Null"@);
    lemma_contains_concat(upto_6, part_7, "-Program $app"@ + " -RemoteAddress "@ + "'Internet6'"@ + " | Out-Null"@);
    lemma_contains_concat(upto_6, part_7, "foreach ($package in $vpnPackages) { "@);
    lemma_contains_concat(upto_6, part_7, "-Package $package"@ + " -RemoteAddress "@ + "$blocked"@ + " | Out-Null"@);
    lemma_contains_concat(upto_6, part_7, "-Package $package"@ + " -RemoteAddress "@ + "'Internet6'"@ + " | Out-Null"@);
    let upto_7 = upto_6 + part_7;
    let part_8 = "$i++ } }"@;
    lemma_contains_concat(upto_7, part_8, "foreach ($adapter in $physical) { "@);
    lemma_contains_concat(upto_7, part_8, "-Service Dnscache"@ + " -RemoteAddress "@ + "$blocked"@ + " | Out-Null"@);
    lemma_contains_concat(upto_7, part_8, "-Service Dnscache"@ + " -RemoteAddress "@ + "'Internet6'"@ + " | Out-Null"@);
    lemma_contains_concat(upto_7, part_8, "foreach ($app in $vpnApps) { "@);
    lemma_contains_concat(upto_7, part_8, "-Program $app"@ + " -RemoteAddress "@ + "$blocked"@ + " | Out-Null"@);
    lemma_contains_concat(upto_7, part_8, "-Program $app"@ + " -RemoteAddress "@ + "'Internet6'"@ + " | Out-Null"@);
    lemma_contains_concat(upto_7, part_8, "foreach ($package in $vpnPackages) { "@);
    lemma_contains_concat(upto_7, part_8, "-Package $package"@ + " -RemoteAddress "@ + "$blocked"@ + " | Out-Null"@);
    lemma_contains_concat(upto_7, part_8, "-Package $package"@ + " -RemoteAddress "@ + "'Internet6'"@ + " | Out-Null"@);
    let upto_8 = upto_7 + part_8;
    assert(selective_tail(only_missing) == upto_8);
}

proof fn lemma_loops()
    ensures
        text::contains_text("); foreach ($adapter in $physical) { "@, "foreach ($adapter in $physical) { "@),
        text::contains_text("$i=0; foreach ($app in $vpnApps) { "@, "foreach ($app in $vpnApps) { "@),
        text::contains_text("$i++ }; foreach ($package in $vpnPackages) { "@, "foreach ($package in $vpnPackages) { "@),
{
    reveal_strlit("); foreach ($adapter in $physical) { ");
    reveal_strlit("$i=0; foreach ($app in $vpnApps) { ");
    reveal_strlit("$i++ }; foreach ($package in $vpnPackages) { ");
    reveal_strlit("foreach ($adapter in $physical) { ");
    reveal_strlit("foreach ($app in $vpnApps) { ");
    reveal_strlit("foreach ($package in $vpnPackages) { ");
    assert("); foreach ($adapter in $physical) { "@.subrange(3, 37) =~= "foreach ($adapter in $physical) { "@);
    assert("$i=0; foreach ($app in $vpnApps) { "@.subrange(6, 35) =~= "foreach ($app in $vpnApps) { "@);
    assert("$i++ }; foreach ($package in $vpnPackages) { "@.subrange(8, 45) =~= "foreach ($package in $vpnPackages) { "@);
    assert(text::occurs_at("); foreach ($adapter in $physical) { "@, "foreach ($adapter in $physical) { "@, 3));
    assert(text::occurs_at("$i=0; foreach ($app in $vpnApps) { "@, "foreach ($app in $vpnApps) { "@, 6));
    assert(text::occurs_at("$i++ }; foreach ($package in $vpnPackages) { "@, "foreach ($package in $vpnPackages) { "@, 8));
}

/// While applications are selected, the script fences in what the policy lists:
/// it walks both lists on every physical adapter, and creates for each program,
/// for each package and for the name resolution service a rule about the blocked
/// IPv4 networks and one about all of IPv6.
pub proof fn selected_applications_are_fenced_in(policy: AppRoutingPolicy, only_missing: bool)
    requires
        policy.mode is Include,
    ensures
        ({
            let s = firewall_text(policy, only_missing);
            &&& text::contains_text(s, "$vpnApps=@("@ + app_list(policy) + ")"@)
            &&& text::contains_text(s, "$vpnPackages=@("@ + package_list(policy) + ")"@)
            &&& text::contains_text(s, "foreach ($adapter in $physical) { "@)
            &&& text::contains_text(s, "foreach ($app in $vpnApps) { "@)
            &&& text::contains_text(s, "foreach ($package in $vpnPackages) { "@)
            &&& text::contains_text(s, "-Service Dnscache"@ + " -RemoteAddress "@ + "$blocked"@ + " | Out-Null"@)
            &&& text::contains_text(s, "-Service Dnscache"@ + " -RemoteAddress "@ + "'Internet6'"@ + " | Out-Null"@)
            &&& text::contains_text(s, "-Program $app"@ + " -RemoteAddress "@ + "$blocked"@ + " | Out-Null"@)
            &&& text::contains_text(s, "-Program $app"@ + " -RemoteAddress "@ + "'Internet6'"@ + " | Out-Null"@)
            &&& text::contains_text(s, "-Package $package"@ + " -RemoteAddress "@ + "$blocked"@ + " | Out-Null"@)
            &&& text::contains_text(s, "-Package $package"@ + " -RemoteAddress "@ + "'Internet6'"@ + " | Out-Null"@)
        }),
{
    let s = firewall_text(policy, only_missing);
    let apps = app_list(policy);
    let packages = package_list(policy);
    let tail = selective_tail(only_missing);
    lemma_tail_names_its_targets(only_missing);
    let lists = "$vpnApps=@("@ + apps + "); $vpnPackages=@("@ + packages;
    lemma_selective_split(policy, only_missing);
    assert(s == lists + tail);
    lemma_contains_concat(lists, tail, "-Service Dnscache"@ + " -RemoteAddress "@ + "$blocked"@ + " | Out-Null"@);
    lemma_contains_concat(lists, tail, "-Service Dnscache"@ + " -RemoteAddress "@ + "'Internet6'"@ + " | Out-Null"@);
    lemma_contains_concat(lists, tail, "-Program $app"@ + " -RemoteAddress "@ + "$blocked"@ + " | Out-Null"@);
    lemma_contains_concat(lists, tail, "-Program $app"@ + " -RemoteAddress "@ + "'Internet6'"@ + " | Out-Null"@);
    lemma_contains_concat(lists, tail, "-Package $package"@ + " -RemoteAddress "@ + "$blocked"@ + " | Out-Null"@);
    lemma_contains_concat(lists, tail, "-Package $package"@ + " -RemoteAddress "@ + "'Internet6'"@ + " | Out-Null"@);
    lemma_contains_concat(lists, tail, "foreach ($adapter in $physical) { "@);
    lemma_contains_concat(lists, tail, "foreach ($app in $vpnApps) { "@);
    lemma_contains_concat(lists, tail, "foreach ($package in $vpnPackages) { "@);
    lemma_selective_tail(only_missing);
    lemma_lists_stand(apps, packages, tail);
}

proof fn lemma_selective_split(policy: AppRoutingPolicy, only_missing: bool)
    requires
        policy.mode is Include,
    ensures
        firewall_text(policy, only_missing) == "$vpnApps=@("@ + app_list(policy) + "); $vpnPackages=@("@
            + package_list(policy) + selective_tail(only_missing),
{
    assert(firewall_text(policy, only_missing) =~= "$vpnApps=@("@ + app_list(policy)
        + "); $vpnPackages=@("@ + package_list(policy) + selective_tail(only_missing));
}

/// Both lists stand in the script, each up to its closing bracket.
proof fn lemma_lists_stand(apps: Seq<char>, packages: Seq<char>, tail: Seq<char>)
    requires
        tail.len() > 0,
        tail[0] == ')',
    ensures
        ({
            let s = "$vpnApps=@("@ + apps + "); $vpnPackages=@("@ + packages + tail;
            &&& text::contains_text(s, "$vpnApps=@("@ + apps + ")"@)
            &&& text::contains_text(s, "$vpnPackages=@("@ + packages + ")"@)
        }),
{
    let opening = "$vpnApps=@("@;
    let middle = "); $vpnPackages=@("@;
    let s = opening + apps + middle + packages + tail;
    reveal_strlit("); $vpnPackages=@(");
    reveal_strlit("$vpnPackages=@(");
    reveal_strlit(")");
    let inner = middle.subrange(1, middle.len() as int);
    assert(middle =~= ")"@ + inner);
    let rest = inner + packages + tail;
    assert(s =~= (opening + apps + ")"@) + rest);
    assert(s =~= Seq::<char>::empty() + (opening + apps + ")"@) + rest);
    lemma_contains_middle(Seq::<char>::empty(), opening + apps + ")"@, rest);
    let last = tail.subrange(1, tail.len() as int);
    assert(tail =~= ")"@ + last);
    let gap = middle.subrange(0, 3);
    let named = "$vpnPackages=@("@;
    assert(middle =~= gap + named);
    let before = opening + apps + gap;
    assert(s =~= before + (named + packages + ")"@) + last);
    lemma_contains_middle(before, named + packages + ")"@, last);
}

/// Every program of the policy stands in the list that the script walks,
/// between quotes that its own quotes cannot end, and so does every package.
pub proof fn listed_programs_stand_in_the_script(policy: AppRoutingPolicy, i: int)
    ensures
        0 <= i < policy.apps@.len() ==> text::contains_text(
            app_list(policy),
            "'"@ + network::quoted_path(policy.apps@[i]@) + "'"@,
        ),
        0 <= i < policy.package_sids@.len() ==> text::contains_text(
            package_list(policy),
            "'"@ + network::quoted(policy.package_sids@[i]@) + "'"@,
        ),
{
    let apps = text::texts(policy.apps@).map_values(|app: Seq<char>| network::quoted_path(app));
    let sids = text::texts(policy.package_sids@).map_values(|sid: Seq<char>| network::quoted(sid));
    if 0 <= i < policy.apps@.len() {
        lemma_quoted_item(apps, i);
        assert(apps[i] == network::quoted_path(policy.apps@[i]@));
    }
    if 0 <= i < policy.package_sids@.len() {
        lemma_quoted_item(sids, i);
        assert(sids[i] == network::quoted(policy.package_sids@[i]@));
    }
}

proof fn lemma_quoted_item(items: Seq<Seq<char>>, i: int)
    requires
        0 <= i < items.len(),
    ensures
        text::contains_text(quoted_list(items), "'"@ + items[i] + "'"@),
{
    let quoted = items.map_values(|item: Seq<char>| "'"@ + item + "'"@);
    assert(quoted[i] == "'"@ + items[i] + "'"@);
    lemma_joined_item(quoted, ","@, i);
}

proof fn lemma_joined_item(parts: Seq<Seq<char>>, separator: Seq<char>, i: int)
    requires
        0 <= i < parts.len(),
    ensures
        text::contains_text(text::join(parts, separator), parts[i]),
    decreases parts.len(),
{
    let whole = text::join(parts, separator);
    if parts.len() == 1 {
        assert(whole.subrange(0, whole.len() as int) =~= whole);
        assert(text::occurs_at(whole, parts[0], 0));
    } else {
        let head = text::join(parts.drop_last(), separator);
        if i == parts.len() - 1 {
            let before = head + separator;
            assert(whole =~= before + parts[i] + Seq::<char>::empty());
            lemma_contains_middle(before, parts[i], Seq::<char>::empty());
        } else {
            lemma_joined_item(parts.drop_last(), separator, i);
            assert(parts.drop_last()[i] == parts[i]);
            lemma_contains_concat(head, separator, parts[i]);
            lemma_contains_concat(head + separator, parts.last(), parts[i]);
        }
    }
}

/// While applications are excluded, the rules of every adapter are about the
/// blocked IPv4 networks and about all of IPv6.
#[verifier::spinoff_prover]
pub proof fn global_rules_are_about_everything(only_missing: bool)
    ensures
        text::contains_text(global_rules(only_missing), "foreach ($adapter in $physical) { "@),
        text::contains_text(
            global_rules(only_missing),
            "-InterfaceAlias $adapter.Name -RemoteAddress $blocked | Out-Null"@,
        ),
        text::contains_text(
            global_rules(only_missing),
            "-InterfaceAlias $adapter.Name -RemoteAddress 'Internet6' | Out-Null"@,
        ),
{
    let loop_text = "foreach ($adapter in $physical) { "@;
    let four = "-InterfaceAlias $adapter.Name -RemoteAddress $blocked | Out-Null"@;
    let six = "-InterfaceAlias $adapter.Name -RemoteAddress 'Internet6' | Out-Null"@;
    lemma_global_aims();
    let v4 = global_v4_rule();
    let v6 = global_v6_rule();
    let (opening, middle, closing) = if only_missing {
        (guarded_opening(), guarded_middle(), " } }"@)
    } else {
        (loop_text, "; "@, " }"@)
    };
    lemma_contains_concat(opening, v4, loop_text);
    lemma_contains_concat(opening + v4, middle, loop_text);
    lemma_contains_concat(opening + v4 + middle, v6, loop_text);
    lemma_contains_concat(opening + v4 + middle + v6, closing, loop_text);
    lemma_contains_concat(opening, v4, four);
    lemma_contains_concat(opening + v4, middle, four);
    lemma_contains_concat(opening + v4 + middle, v6, four);
    lemma_contains_concat(opening + v4 + middle + v6, closing, four);
    lemma_contains_concat(opening + v4 + middle, v6, six);
    lemma_contains_concat(opening + v4 + middle + v6, closing, six);
}

#[verifier::spinoff_prover]
proof fn lemma_global_aims()
    ensures
        text::contains_text(global_v4_rule(), "-InterfaceAlias $adapter.Name -RemoteAddress $blocked | Out-Null"@),
        text::contains_text(global_v6_rule(), "-InterfaceAlias $adapter.Name -RemoteAddress 'Internet6' | Out-Null"@),
        text::contains_text(guarded_opening(), "foreach ($adapter in $physical) { "@),
        text::contains_text("foreach ($adapter in $physical) { "@, "foreach ($adapter in $physical) { "@),
{
    reveal_strlit("try { New-NetFirewallRule -Name ('MouseVPN-KS-v4-'+$adapter.ifIndex) -DisplayName ('MouseVPN kill switch IPv4 '+$adapter.Name) -Group 'MouseVPN Kill Switch' -Direction Outbound -Action Block -Enabled True -Profile Any -InterfaceAlias $adapter.Name -RemoteAddress $blocked | Out-Null } catch { throw ('IPv4 firewall rule failed on adapter '+$adapter.Name+': '+$_.Exception.Message) }");
    reveal_strlit("try { New-NetFirewallRule -Name ('MouseVPN-KS-v6-'+$adapter.ifIndex) -DisplayName ('MouseVPN kill switch IPv6 '+$adapter.Name) -Group 'MouseVPN Kill Switch' -Direction Outbound -Action Block -Enabled True -Profile Any -InterfaceAlias $adapter.Name -RemoteAddress 'Internet6' | Out-Null } catch { throw ('IPv6 firewall rule failed on adapter '+$adapter.Name+': '+$_.Exception.Message) }");
    reveal_strlit("-InterfaceAlias $adapter.Name -RemoteAddress $blocked | Out-Null");
    reveal_strlit("-InterfaceAlias $adapter.Name -RemoteAddress 'Internet6' | Out-Null");
    reveal_strlit("foreach ($adapter in $physical) { if (-not (Get-NetFirewallRule -Name ('MouseVPN-KS-v4-'+$adapter.ifIndex) -ErrorAction SilentlyContinue)) { ");
    reveal_strlit("foreach ($adapter in $physical) { ");
    assert(global_v4_rule().subrange(218, 282) =~= "-InterfaceAlias $adapter.Name -RemoteAddress $blocked | Out-Null"@);
    assert(text::occurs_at(global_v4_rule(), "-InterfaceAlias $adapter.Name -RemoteAddress $blocked | Out-Null"@, 218));
    assert(global_v6_rule().subrange(218, 285) =~= "-InterfaceAlias $adapter.Name -RemoteAddress 'Internet6' | Out-Null"@);
    assert(text::occurs_at(global_v6_rule(), "-InterfaceAlias $adapter.Name -RemoteAddress 'Internet6' | Out-Null"@, 218));
    assert(guarded_opening().subrange(0, 34) =~= "foreach ($adapter in $physical) { "@);
    assert(text::occurs_at(guarded_opening(), "foreach ($adapter in $physical) { "@, 0));
    assert("foreach ($adapter in $physical) { "@.subrange(0, 34) =~= "foreach ($adapter in $physical) { "@);
    assert(text::occurs_at("foreach ($adapter in $physical) { "@, "foreach ($adapter in $physical) { "@, 0));
}

/// Both scripts stop at the first failure, name the blocked networks, take the
/// adapters but that of the tunnel, and end with the rules of the firewall: all
/// of them on installation, the missing ones on a refresh.
#[verifier::spinoff_prover]
pub proof fn scripts_set_up_what_the_rules_use(server: Ipv4Addr, policy: AppRoutingPolicy)
    ensures
        text::starts_with(install_text(server, policy), "$ErrorActionPreference='Stop'; "@),
        text::starts_with(refresh_text(server, policy), "$ErrorActionPreference='Stop'; "@),
        text::contains_text(
            install_text(server, policy),
            "$blocked=@('"@ + prefix_list(server) + "'); $physical=Get-NetAdapter | Where-Object {$_.Name -ne 'MouseVPN' -and"@,
        ),
        text::contains_text(
            refresh_text(server, policy),
            "$blocked=@('"@ + prefix_list(server) + "'); $physical=Get-NetAdapter | Where-Object {$_.Name -ne 'MouseVPN' -and"@,
        ),
        text::ends_with(install_text(server, policy), firewall_text(policy, false)),
        text::ends_with(refresh_text(server, policy), firewall_text(policy, true)),
{
    reveal_strlit("$ErrorActionPreference='Stop'; $blocked=@('");
    reveal_strlit("'); $physical=Get-NetAdapter | Where-Object {$_.Name -ne 'MouseVPN' -and $_.InterfaceDescription -notmatch 'Loopback'}; ");
    reveal_strlit("$ErrorActionPreference='Stop'; $vpn=Get-NetAdapter -Name 'MouseVPN' -ErrorAction Stop; try { $profile=Get-NetConnectionProfile -InterfaceIndex $vpn.ifIndex -ErrorAction SilentlyContinue; if ($profile -and $profile.NetworkCategory -ne 'Public') {Set-NetConnectionProfile -InterfaceIndex $vpn.ifIndex -NetworkCategory Public -ErrorAction Stop} } catch {Write-Warning ('Could not mark MouseVPN as a Public network: '+$_.Exception.Message)}; $blocked=@('");
    reveal_strlit("$ErrorActionPreference='Stop'; ");
    reveal_strlit("$blocked=@('");
    reveal_strlit("'); $physical=Get-NetAdapter | Where-Object {$_.Name -ne 'MouseVPN' -and");
    let blocked = "$blocked=@('"@;
    let adapters = "'); $physical=Get-NetAdapter | Where-Object {$_.Name -ne 'MouseVPN' -and"@;
    let list = prefix_list(server);
    let wanted = blocked + list + adapters;
    let behind = "'); $physical=Get-NetAdapter | Where-Object {$_.Name -ne 'MouseVPN' -and $_.InterfaceDescription -notmatch 'Loopback'}; "@;
    assert(behind.subrange(0, 72) =~= adapters);
    let install = install_text(server, policy);
    assert(install.subrange(0, 31) =~= "$ErrorActionPreference='Stop'; "@);
    assert("$ErrorActionPreference='Stop'; $blocked=@('"@.subrange(31, 43) =~= blocked);
    assert(install.subrange(31, 31 + wanted.len() as int) =~= wanted);
    assert(text::occurs_at(install, wanted, 31));
    let rules = firewall_text(policy, false);
    assert(install.subrange(install.len() - rules.len(), install.len() as int) =~= rules);
    let refresh = refresh_text(server, policy);
    assert(refresh.subrange(0, 31) =~= "$ErrorActionPreference='Stop'; "@);
    assert("$ErrorActionPreference='Stop'; $vpn=Get-NetAdapter -Name 'MouseVPN' -ErrorAction Stop; try { $profile=Get-NetConnectionProfile -InterfaceIndex $vpn.ifIndex -ErrorAction SilentlyContinue; if ($profile -and $profile.NetworkCategory -ne 'Public') {Set-NetConnectionProfile -InterfaceIndex $vpn.ifIndex -NetworkCategory Public -ErrorAction Stop} } catch {Write-Warning ('Could not mark MouseVPN as a Public network: '+$_.Exception.Message)}; $blocked=@('"@.subrange(438, 450) =~= blocked);
    assert(refresh.subrange(438, 438 + wanted.len() as int) =~= wanted);
    assert(text::occurs_at(refresh, wanted, 438));
    let missing = firewall_text(policy, true);
    assert(refresh.subrange(refresh.len() - missing.len(), refresh.len() as int) =~= missing);
}

/// The blocked networks that the scripts name hold every IPv4 address but the
/// server's: read back as prefixes, one of them holds an address exactly when it
/// is another.
pub proof fn named_networks_hold_all_but_the_server(server: Ipv4Addr, address: u32)
    ensures
        (exists|i: int|
            0 <= i < network::blocked_prefixes(server).len() && #[trigger] names_network_of(
                network::blocked_prefixes(server)[i],
                address,
            )) <==> address != server.bits,
        forall|i: int|
            0 <= i < network::blocked_prefixes(server).len() ==> text::contains_text(
                prefix_list(server),
                #[trigger] network::blocked_prefixes(server)[i],
            ),
{
    let prefixes = network::blocked_prefixes(server);
    network::the_blocked_networks_hold_all_but_the_server(server.bits, address);
    assert forall|i: int| 0 <= i < 32 implies (#[trigger] names_network_of(prefixes[i], address)
        <==> trie::agree(address, network::sibling(server.bits, i), i + 1)) by {
        reveal_strlit("/");
        assert("/"@ =~= seq!['/']);
        geo::networks_are_read_from_their_notation(
            Ipv4Addr { bits: network::sibling(server.bits, i) },
            (i + 1) as nat,
        );
    }
    if address != server.bits {
        let i = choose|i: int|
            0 <= i < 32 && #[trigger] trie::agree(
                address,
                network::sibling(server.bits, i),
                i + 1,
            );
        assert(names_network_of(prefixes[i], address));
    }
    assert forall|i: int| 0 <= i < prefixes.len() implies text::contains_text(
        prefix_list(server),
        #[trigger] prefixes[i],
    ) by {
        lemma_joined_item(prefixes, "','"@, i);
    }
}

/// Whether a text is the notation of a network that holds `address`.
pub open spec fn names_network_of(notation: Seq<char>, address: u32) -> bool {
    geo::cidr_of(notation) matches Some((network, length)) && trie::agree(
        address,
        network,
        length as int,
    )
}

} // verus!
