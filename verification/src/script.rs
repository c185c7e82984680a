//! The scripts that configure the Windows firewall.

use vstd::prelude::*;

use crate::error::is_platform;
use crate::ip::Ipv4Addr;
use crate::{network, text, AppRoutingMode, AppRoutingPolicy, ClientError};

verus! {

/// The blocked networks as they stand between the quotes of a list.
pub open spec fn prefix_list(server: Ipv4Addr) -> Seq<char> {
    text::join(network::blocked_prefixes(server), "','"@)
}

fn prefix_list_text(server: Ipv4Addr) -> (list: String)
    ensures
        list@ == prefix_list(server),
{
    text::joined(&network::blocked_ipv4_prefixes(server), "','")
}

/// The script that installs the kill switch.
pub open spec fn install_text(server: Ipv4Addr, policy: AppRoutingPolicy) -> Seq<char> {
    "$ErrorActionPreference='Stop'; $blocked=@('"@
        + prefix_list(server)
        + "'); $physical=Get-NetAdapter | Where-Object {$_.Name -ne 'MouseVPN' -and $_.InterfaceDescription -notmatch 'Loopback'}; "@
        + firewall_text(policy, false)
}

/// The script that installs the kill switch.
pub fn install_script(server: Ipv4Addr, policy: &AppRoutingPolicy) -> (script: String)
    ensures
        script@ == install_text(server, *policy),
{
    let mut script = text::owned("$ErrorActionPreference='Stop'; $blocked=@('");
    script.append(prefix_list_text(server).as_str());
    script.append("'); $physical=Get-NetAdapter | Where-Object {$_.Name -ne 'MouseVPN' -and $_.InterfaceDescription -notmatch 'Loopback'}; ");
    script.append(firewall_script(policy, false).as_str());
    script
}

/// The script that restores what is missing of the kill switch.
pub open spec fn refresh_text(server: Ipv4Addr, policy: AppRoutingPolicy) -> Seq<char> {
    "$ErrorActionPreference='Stop'; $vpn=Get-NetAdapter -Name 'MouseVPN' -ErrorAction Stop; try { $profile=Get-NetConnectionProfile -InterfaceIndex $vpn.ifIndex -ErrorAction SilentlyContinue; if ($profile -and $profile.NetworkCategory -ne 'Public') {Set-NetConnectionProfile -InterfaceIndex $vpn.ifIndex -NetworkCategory Public -ErrorAction Stop} } catch {Write-Warning ('Could not mark MouseVPN as a Public network: '+$_.Exception.Message)}; $blocked=@('"@
        + prefix_list(server)
        + "'); $physical=Get-NetAdapter | Where-Object {$_.Name -ne 'MouseVPN' -and $_.InterfaceDescription -notmatch 'Loopback'}; "@
        + firewall_text(policy, true)
}

/// The script that restores what is missing of the kill switch.
pub fn refresh_script(server: Ipv4Addr, policy: &AppRoutingPolicy) -> (script: String)
    ensures
        script@ == refresh_text(server, *policy),
{
    let mut script = text::owned("$ErrorActionPreference='Stop'; $vpn=Get-NetAdapter -Name 'MouseVPN' -ErrorAction Stop; try { $profile=Get-NetConnectionProfile -InterfaceIndex $vpn.ifIndex -ErrorAction SilentlyContinue; if ($profile -and $profile.NetworkCategory -ne 'Public') {Set-NetConnectionProfile -InterfaceIndex $vpn.ifIndex -NetworkCategory Public -ErrorAction Stop} } catch {Write-Warning ('Could not mark MouseVPN as a Public network: '+$_.Exception.Message)}; $blocked=@('");
    script.append(prefix_list_text(server).as_str());
    script.append("'); $physical=Get-NetAdapter | Where-Object {$_.Name -ne 'MouseVPN' -and $_.InterfaceDescription -notmatch 'Loopback'}; ");
    script.append(firewall_script(policy, true).as_str());
    script
}

/// Creates the IPv4 rule of an adapter.
pub open spec fn global_v4_rule() -> Seq<char> {
    "try { New-NetFirewallRule -Name ('MouseVPN-KS-v4-'+$adapter.ifIndex) -DisplayName ('MouseVPN kill switch IPv4 '+$adapter.Name) -Group 'MouseVPN Kill Switch' -Direction Outbound -Action Block -Enabled True -Profile Any -InterfaceAlias $adapter.Name -RemoteAddress $blocked | Out-Null } catch { throw ('IPv4 firewall rule failed on adapter '+$adapter.Name+': '+$_.Exception.Message) }"@
}

/// Creates the IPv6 rule of an adapter.
pub open spec fn global_v6_rule() -> Seq<char> {
    "try { New-NetFirewallRule -Name ('MouseVPN-KS-v6-'+$adapter.ifIndex) -DisplayName ('MouseVPN kill switch IPv6 '+$adapter.Name) -Group 'MouseVPN Kill Switch' -Direction Outbound -Action Block -Enabled True -Profile Any -InterfaceAlias $adapter.Name -RemoteAddress 'Internet6' | Out-Null } catch { throw ('IPv6 firewall rule failed on adapter '+$adapter.Name+': '+$_.Exception.Message) }"@
}

/// Opens the rules of an adapter whose IPv4 rule may exist.
pub open spec fn guarded_opening() -> Seq<char> {
    "foreach ($adapter in $physical) { if (-not (Get-NetFirewallRule -Name ('MouseVPN-KS-v4-'+$adapter.ifIndex) -ErrorAction SilentlyContinue)) { "@
}

/// Goes over to the IPv6 rule of an adapter, which may exist.
pub open spec fn guarded_middle() -> Seq<char> {
    " }; if (-not (Get-NetFirewallRule -Name ('MouseVPN-KS-v6-'+$adapter.ifIndex) -ErrorAction SilentlyContinue)) { "@
}

/// The rules that keep everything off the physical adapters.
pub open spec fn global_rules(only_missing: bool) -> Seq<char> {
    if only_missing {
        guarded_opening() + global_v4_rule() + guarded_middle() + global_v6_rule() + " } }"@
    } else {
        "foreach ($adapter in $physical) { "@
            + global_v4_rule()
            + "; "@
            + global_v6_rule()
            + " }"@
    }
}

/// A rule that is created where `guard` holds.
pub open spec fn rule(
    guard: Seq<char>,
    name: Seq<char>,
    title: Seq<char>,
    target: Seq<char>,
    remote: Seq<char>,
    failure: Seq<char>,
) -> Seq<char> {
    "$name=("@ + name + "); "@ + guard
        + " { try { New-NetFirewallRule -Name $name -DisplayName ('"@ + title
        + " '+$adapter.Name) -Group 'MouseVPN Kill Switch' -Direction Outbound -Action Block -Enabled True -Profile Any -InterfaceAlias $adapter.Name "@
        + target + " -RemoteAddress "@ + remote + " | Out-Null } catch { throw ('"@ + failure
        + "+$_.Exception.Message) } }; "@
}

fn push_rule(
    script: &mut String,
    guard: &str,
    name: &str,
    title: &str,
    target: &str,
    remote: &str,
    failure: &str,
)
    ensures
        final(script)@ == old(script)@ + rule(guard@, name@, title@, target@, remote@, failure@),
{
    let ghost before = script@;
    script.append("$name=(");
    script.append(name);
    script.append("); ");
    script.append(guard);
    script.append(" { try { New-NetFirewallRule -Name $name -DisplayName ('");
    script.append(title);
    script.append(
        " '+$adapter.Name) -Group 'MouseVPN Kill Switch' -Direction Outbound -Action Block -Enabled True -Profile Any -InterfaceAlias $adapter.Name ",
    );
    script.append(target);
    script.append(" -RemoteAddress ");
    script.append(remote);
    script.append(" | Out-Null } catch { throw ('");
    script.append(failure);
    script.append("+$_.Exception.Message) } }; ");
    assert(script@ =~= before + rule(guard@, name@, title@, target@, remote@, failure@));
}

/// The condition under which a rule is created.
pub open spec fn rule_guard(only_missing: bool) -> Seq<char> {
    if only_missing {
        "if (-not (Get-NetFirewallRule -Name $name -ErrorAction SilentlyContinue))"@
    } else {
        "if ($true)"@
    }
}

/// The rules that keep the selected applications, the selected packages and
/// the name resolution service off the physical adapters.
pub open spec fn selective_rules(
    apps: Seq<char>,
    packages: Seq<char>,
    guard: Seq<char>,
) -> Seq<char> {
    "$vpnApps=@("@ + apps + "); $vpnPackages=@("@ + packages
        + "); foreach ($adapter in $physical) { "@
        + rule(
            guard,
            "'MouseVPN-KS-v4-'+$adapter.ifIndex+'-dnscache'"@,
            "MouseVPN DNS Client kill switch IPv4"@,
            "-Service Dnscache"@,
            "$blocked"@,
            "DNS Client IPv4 firewall rule failed: '"@,
        )
        + rule(
            guard,
            "'MouseVPN-KS-v6-'+$adapter.ifIndex+'-dnscache'"@,
            "MouseVPN DNS Client kill switch IPv6"@,
            "-Service Dnscache"@,
            "'Internet6'"@,
            "DNS Client IPv6 firewall rule failed: '"@,
        )
        + "$i=0; foreach ($app in $vpnApps) { "@
        + rule(
            guard,
            "'MouseVPN-KS-v4-'+$adapter.ifIndex+'-'+$i"@,
            "MouseVPN selected app kill switch IPv4"@,
            "-Program $app"@,
            "$blocked"@,
            "Selected-app IPv4 firewall rule failed for '+$app+': '"@,
        )
        + rule(
            guard,
            "'MouseVPN-KS-v6-'+$adapter.ifIndex+'-'+$i"@,
            "MouseVPN selected app kill switch IPv6"@,
            "-Program $app"@,
            "'Internet6'"@,
            "Selected-app IPv6 firewall rule failed for '+$app+': '"@,
        )
        + "$i++ }; foreach ($package in $vpnPackages) { "@
        + rule(
            guard,
            "'MouseVPN-KS-v4-'+$adapter.ifIndex+'-package-'+$i"@,
            "MouseVPN selected package kill switch IPv4"@,
            "-Package $package"@,
            "$blocked"@,
            "Selected-package IPv4 firewall rule failed for '+$package+': '"@,
        )
        + rule(
            guard,
            "'MouseVPN-KS-v6-'+$adapter.ifIndex+'-package-'+$i"@,
            "MouseVPN selected package kill switch IPv6"@,
            "-Package $package"@,
            "'Internet6'"@,
            "Selected-package IPv6 firewall rule failed for '+$package+': '"@,
        )
        + "$i++ } }"@
}

/// Each text between quotes, commas between them.
pub open spec fn quoted_list(items: Seq<Seq<char>>) -> Seq<char> {
    text::join(items.map_values(|item: Seq<char>| "'"@ + item + "'"@), ","@)
}

fn quoted_list_text(items: &Vec<String>) -> (list: String)
    ensures
        list@ == quoted_list(text::texts(items@)),
{
    let mut entries: Vec<String> = Vec::new();
    let mut i: usize = 0;
    while i < items.len()
        invariant
            i <= items@.len(),
            entries@.len() == i,
            forall|j: int| 0 <= j < i ==> (#[trigger] entries@[j])@ == "'"@ + items@[j]@ + "'"@,
        decreases items@.len() - i,
    {
        let mut entry = text::owned("'");
        entry.append(items[i].as_str());
        entry.append("'");
        entries.push(entry);
        i = i + 1;
    }
    assert(text::texts(entries@) =~= text::texts(items@).map_values(
        |item: Seq<char>| "'"@ + item + "'"@,
    ));
    text::joined(&entries, ",")
}

/// The executables of a policy as a list of quoted paths.
pub open spec fn app_list(policy: AppRoutingPolicy) -> Seq<char> {
    quoted_list(
        text::texts(policy.apps@).map_values(|app: Seq<char>| network::quoted_path(app)),
    )
}

/// The package identifiers of a policy as a quoted list.
pub open spec fn package_list(policy: AppRoutingPolicy) -> Seq<char> {
    quoted_list(
        text::texts(policy.package_sids@).map_values(|sid: Seq<char>| network::quoted(sid)),
    )
}

/// The firewall part of a script.
pub open spec fn firewall_text(policy: AppRoutingPolicy, only_missing: bool) -> Seq<char> {
    match policy.mode {
        AppRoutingMode::Exclude => global_rules(only_missing),
        AppRoutingMode::Include => selective_rules(
            app_list(policy),
            package_list(policy),
            rule_guard(only_missing),
        ),
    }
}

/// The firewall part of a script, which with `only_missing` leaves rules alone
/// that exist already.
pub fn firewall_script(policy: &AppRoutingPolicy, only_missing: bool) -> (script: String)
    ensures
        script@ == firewall_text(*policy, only_missing),
{
    match policy.mode {
        AppRoutingMode::Exclude => global_script(only_missing),
        AppRoutingMode::Include => selective_script(policy, only_missing),
    }
}

fn global_script(only_missing: bool) -> (script: String)
    ensures
        script@ == global_rules(only_missing),
{
    let create_v4 = "try { New-NetFirewallRule -Name ('MouseVPN-KS-v4-'+$adapter.ifIndex) -DisplayName ('MouseVPN kill switch IPv4 '+$adapter.Name) -Group 'MouseVPN Kill Switch' -Direction Outbound -Action Block -Enabled True -Profile Any -InterfaceAlias $adapter.Name -RemoteAddress $blocked | Out-Null } catch { throw ('IPv4 firewall rule failed on adapter '+$adapter.Name+': '+$_.Exception.Message) }";
    let create_v6 = "try { New-NetFirewallRule -Name ('MouseVPN-KS-v6-'+$adapter.ifIndex) -DisplayName ('MouseVPN kill switch IPv6 '+$adapter.Name) -Group 'MouseVPN Kill Switch' -Direction Outbound -Action Block -Enabled True -Profile Any -InterfaceAlias $adapter.Name -RemoteAddress 'Internet6' | Out-Null } catch { throw ('IPv6 firewall rule failed on adapter '+$adapter.Name+': '+$_.Exception.Message) }";
    if only_missing {
        let mut script = text::owned("foreach ($adapter in $physical) { if (-not (Get-NetFirewallRule -Name ('MouseVPN-KS-v4-'+$adapter.ifIndex) -ErrorAction SilentlyContinue)) { ");
        script.append(create_v4);
        script.append(" }; if (-not (Get-NetFirewallRule -Name ('MouseVPN-KS-v6-'+$adapter.ifIndex) -ErrorAction SilentlyContinue)) { ");
        script.append(create_v6);
        script.append(" } }");
        script
    } else {
        let mut script = text::owned("foreach ($adapter in $physical) { ");
        script.append(create_v4);
        script.append("; ");
        script.append(create_v6);
        script.append(" }");
        script
    }
}

/// Whether no `g` follows an `o` in the first `n` characters of `s`.
spec fn no_og(s: Seq<char>, n: nat) -> bool
    decreases n,
{
    n <= 1 || (!(s[n - 2] == 'o' && s[n - 1] == 'g') && no_og(s, (n - 1) as nat))
}

proof fn lemma_no_og_at(s: Seq<char>, n: nat, i: int)
    requires
        no_og(s, n),
        0 <= i < n - 1,
    ensures
        !(s[i] == 'o' && s[i + 1] == 'g'),
    decreases n,
{
    if i < n - 2 {
        lemma_no_og_at(s, (n - 1) as nat, i);
    }
}

/// Two texts without the pair make a text without it, where the second does
/// not begin with a `g`.
proof fn lemma_no_og_concat(a: Seq<char>, b: Seq<char>, n: nat)
    requires
        no_og(a, a.len()),
        no_og(b, b.len()),
        b.len() > 0 && b[0] != 'g',
        n <= a.len() + b.len(),
    ensures
        no_og(a + b, n),
    decreases n,
{
    if n > 1 {
        lemma_no_og_concat(a, b, (n - 1) as nat);
        let i = n - 2;
        if i + 1 < a.len() {
            lemma_no_og_at(a, a.len(), i);
        } else if i >= a.len() {
            lemma_no_og_at(b, b.len(), i - a.len());
        }
    }
}

/// A text without the pair names no program.
proof fn lemma_names_no_program(s: Seq<char>)
    requires
        no_og(s, s.len()),
    ensures
        !text::contains_text(s, "-Program"@),
{
    reveal_strlit("-Program");
    if text::contains_text(s, "-Program"@) {
        let at = choose|at: int| text::occurs_at(s, "-Program"@, at);
        let found = s.subrange(at, at + 8);
        assert(found[3] == s[at + 3] && found[4] == s[at + 4]);
        lemma_no_og_at(s, s.len(), at + 3);
    }
}

/// The IPv4 rule names its rule for the adapter, and no program.
#[verifier::spinoff_prover]
proof fn lemma_global_v4_rule()
    ensures
        global_v4_rule().len() > 0 && global_v4_rule()[0] != 'g',
        no_og(global_v4_rule(), global_v4_rule().len()),
        text::contains_text(global_v4_rule(), "MouseVPN-KS-v4-"@),
{
    reveal_strlit("try { New-NetFirewallRule -Name ('MouseVPN-KS-v4-'+$adapter.ifIndex) -DisplayName ('MouseVPN kill switch IPv4 '+$adapter.Name) -Group 'MouseVPN Kill Switch' -Direction Outbound -Action Block -Enabled True -Profile Any -InterfaceAlias $adapter.Name -RemoteAddress $blocked | Out-Null } catch { throw ('IPv4 firewall rule failed on adapter '+$adapter.Name+': '+$_.Exception.Message) }");
    reveal_strlit("MouseVPN-KS-v4-");
    let rule = global_v4_rule();
    assert(rule.subrange(34, 49) =~= "MouseVPN-KS-v4-"@);
    assert(text::occurs_at(rule, "MouseVPN-KS-v4-"@, 34));
    reveal_with_fuel(no_og, 65);
    assert(no_og(rule, 64));
    assert(no_og(rule, 128));
    assert(no_og(rule, 192));
    assert(no_og(rule, 256));
    assert(no_og(rule, 320));
    assert(no_og(rule, 382));
}

/// The IPv6 rule names its rule for the adapter, and no program.
#[verifier::spinoff_prover]
proof fn lemma_global_v6_rule()
    ensures
        global_v6_rule().len() > 0 && global_v6_rule()[0] != 'g',
        no_og(global_v6_rule(), global_v6_rule().len()),
        text::contains_text(global_v6_rule(), "MouseVPN-KS-v6-"@),
{
    reveal_strlit("try { New-NetFirewallRule -Name ('MouseVPN-KS-v6-'+$adapter.ifIndex) -DisplayName ('MouseVPN kill switch IPv6 '+$adapter.Name) -Group 'MouseVPN Kill Switch' -Direction Outbound -Action Block -Enabled True -Profile Any -InterfaceAlias $adapter.Name -RemoteAddress 'Internet6' | Out-Null } catch { throw ('IPv6 firewall rule failed on adapter '+$adapter.Name+': '+$_.Exception.Message) }");
    reveal_strlit("MouseVPN-KS-v6-");
    let rule = global_v6_rule();
    assert(rule.subrange(34, 49) =~= "MouseVPN-KS-v6-"@);
    assert(text::occurs_at(rule, "MouseVPN-KS-v6-"@, 34));
    reveal_with_fuel(no_og, 65);
    assert(no_og(rule, 64));
    assert(no_og(rule, 128));
    assert(no_og(rule, 192));
    assert(no_og(rule, 256));
    assert(no_og(rule, 320));
    assert(no_og(rule, 385));
}

/// What stands around the two rules names no program.
#[verifier::spinoff_prover]
proof fn lemma_global_frame()
    ensures
        no_og("foreach ($adapter in $physical) { "@, "foreach ($adapter in $physical) { "@.len()),
        no_og("; "@, 2) && "; "@.len() == 2 && "; "@[0] != 'g',
        no_og(" }"@, 2) && " }"@.len() == 2 && " }"@[0] != 'g',
{
    reveal_strlit("foreach ($adapter in $physical) { ");
    reveal_strlit("; ");
    reveal_strlit(" }");
    reveal_with_fuel(no_og, 35);
    assert(no_og("foreach ($adapter in $physical) { "@, 34));
}

/// What stands around the two rules where rules may exist names no program.
#[verifier::spinoff_prover]
proof fn lemma_guarded_frame()
    ensures
        no_og(guarded_opening(), guarded_opening().len()),
        no_og(guarded_middle(), guarded_middle().len()),
        guarded_middle().len() > 0 && guarded_middle()[0] != 'g',
        no_og(" } }"@, 4) && " } }"@.len() == 4 && " } }"@[0] != 'g',
{
    reveal_strlit("foreach ($adapter in $physical) { if (-not (Get-NetFirewallRule -Name ('MouseVPN-KS-v4-'+$adapter.ifIndex) -ErrorAction SilentlyContinue)) { ");
    reveal_strlit(" }; if (-not (Get-NetFirewallRule -Name ('MouseVPN-KS-v6-'+$adapter.ifIndex) -ErrorAction SilentlyContinue)) { ");
    reveal_strlit(" } }");
    let opening = guarded_opening();
    let middle = guarded_middle();
    reveal_with_fuel(no_og, 65);
    assert(no_og(opening, 64));
    assert(no_og(opening, 128));
    assert(no_og(opening, 141));
    assert(no_og(middle, 64));
    assert(no_og(middle, 111));
}

/// A text that stands in one of two parts stands in both together.
pub proof fn lemma_contains_concat(a: Seq<char>, b: Seq<char>, needle: Seq<char>)
    requires
        text::contains_text(a, needle) || text::contains_text(b, needle),
    ensures
        text::contains_text(a + b, needle),
{
    if text::contains_text(a, needle) {
        let at = choose|at: int| text::occurs_at(a, needle, at);
        assert((a + b).subrange(at, at + needle.len()) =~= a.subrange(at, at + needle.len()));
        assert(text::occurs_at(a + b, needle, at));
    } else {
        let at = choose|at: int| text::occurs_at(b, needle, at);
        let after = a.len() + at;
        assert((a + b).subrange(after, after + needle.len()) =~= b.subrange(
            at,
            at + needle.len(),
        ));
        assert(text::occurs_at(a + b, needle, after));
    }
}

/// Two rules in a frame name what the rules name, and no program where neither
/// the rules nor the frame do.
proof fn lemma_framed_rules(
    opening: Seq<char>,
    v4: Seq<char>,
    middle: Seq<char>,
    v6: Seq<char>,
    closing: Seq<char>,
)
    requires
        no_og(opening, opening.len()),
        no_og(v4, v4.len()) && v4.len() > 0 && v4[0] != 'g',
        no_og(middle, middle.len()) && middle.len() > 0 && middle[0] != 'g',
        no_og(v6, v6.len()) && v6.len() > 0 && v6[0] != 'g',
        no_og(closing, closing.len()) && closing.len() > 0 && closing[0] != 'g',
        text::contains_text(v4, "MouseVPN-KS-v4-"@),
        text::contains_text(v6, "MouseVPN-KS-v6-"@),
    ensures
        !text::contains_text(opening + v4 + middle + v6 + closing, "-Program"@),
        text::contains_text(opening + v4 + middle + v6 + closing, "MouseVPN-KS-v4-"@),
        text::contains_text(opening + v4 + middle + v6 + closing, "MouseVPN-KS-v6-"@),
{
    let first = opening + v4;
    let second = first + middle;
    let third = second + v6;
    let whole = third + closing;
    lemma_no_og_concat(opening, v4, first.len());
    lemma_no_og_concat(first, middle, second.len());
    lemma_no_og_concat(second, v6, third.len());
    lemma_no_og_concat(third, closing, whole.len());
    lemma_names_no_program(whole);
    lemma_contains_concat(opening, v4, "MouseVPN-KS-v4-"@);
    lemma_contains_concat(first, middle, "MouseVPN-KS-v4-"@);
    lemma_contains_concat(second, v6, "MouseVPN-KS-v4-"@);
    lemma_contains_concat(third, closing, "MouseVPN-KS-v4-"@);
    lemma_contains_concat(second, v6, "MouseVPN-KS-v6-"@);
    lemma_contains_concat(third, closing, "MouseVPN-KS-v6-"@);
}

/// While applications are excluded, the firewall rules are global: they are the
/// same whatever the policy lists, name no program, and cover IPv4 and IPv6.
pub proof fn denylist_rules_are_global(
    policy: AppRoutingPolicy,
    other: AppRoutingPolicy,
    only_missing: bool,
)
    requires
        policy.mode is Exclude,
        other.mode is Exclude,
    ensures
        firewall_text(policy, only_missing) == firewall_text(other, only_missing),
        !text::contains_text(firewall_text(policy, only_missing), "-Program"@),
        text::contains_text(firewall_text(policy, only_missing), "MouseVPN-KS-v4-"@),
        text::contains_text(firewall_text(policy, only_missing), "MouseVPN-KS-v6-"@),
{
    lemma_global_v4_rule();
    lemma_global_v6_rule();
    if only_missing {
        lemma_guarded_frame();
        lemma_framed_rules(
            guarded_opening(),
            global_v4_rule(),
            guarded_middle(),
            global_v6_rule(),
            " } }"@,
        );
    } else {
        lemma_global_frame();
        lemma_framed_rules(
            "foreach ($adapter in $physical) { "@,
            global_v4_rule(),
            "; "@,
            global_v6_rule(),
            " }"@,
        );
    }
}

fn selective_script(policy: &AppRoutingPolicy, only_missing: bool) -> (script: String)
    ensures
        script@ == selective_rules(
            app_list(*policy),
            package_list(*policy),
            rule_guard(only_missing),
        ),
{
    let mut paths: Vec<String> = Vec::new();
    let mut i: usize = 0;
    while i < policy.apps.len()
        invariant
            i <= policy.apps@.len(),
            paths@.len() == i,
            forall|j: int|
                0 <= j < i ==> (#[trigger] paths@[j])@ == network::quoted_path(policy.apps@[j]@),
        decreases policy.apps@.len() - i,
    {
        paths.push(network::powershell_path(policy.apps[i].as_str()));
        i = i + 1;
    }
    assert(text::texts(paths@) =~= text::texts(policy.apps@).map_values(
        |app: Seq<char>| network::quoted_path(app),
    ));
    let mut sids: Vec<String> = Vec::new();
    let mut k: usize = 0;
    while k < policy.package_sids.len()
        invariant
            k <= policy.package_sids@.len(),
            sids@.len() == k,
            forall|j: int|
                0 <= j < k ==> (#[trigger] sids@[j])@ == network::quoted(policy.package_sids@[j]@),
        decreases policy.package_sids@.len() - k,
    {
        sids.push(text::replaced_char(policy.package_sids[k].as_str(), '\'', "''"));
        k = k + 1;
    }
    assert(text::texts(sids@) =~= text::texts(policy.package_sids@).map_values(
        |sid: Seq<char>| network::quoted(sid),
    ));
    let guard: &'static str = if only_missing {
        "if (-not (Get-NetFirewallRule -Name $name -ErrorAction SilentlyContinue))"
    } else {
        "if ($true)"
    };
    let mut script = text::owned("$vpnApps=@(");
    script.append(quoted_list_text(&paths).as_str());
    script.append("); $vpnPackages=@(");
    script.append(quoted_list_text(&sids).as_str());
    script.append("); foreach ($adapter in $physical) { ");
    push_rule(
        &mut script,
        guard,
        "'MouseVPN-KS-v4-'+$adapter.ifIndex+'-dnscache'",
        "MouseVPN DNS Client kill switch IPv4",
        "-Service Dnscache",
        "$blocked",
        "DNS Client IPv4 firewall rule failed: '",
    );
    push_rule(
        &mut script,
        guard,
        "'MouseVPN-KS-v6-'+$adapter.ifIndex+'-dnscache'",
        "MouseVPN DNS Client kill switch IPv6",
        "-Service Dnscache",
        "'Internet6'",
        "DNS Client IPv6 firewall rule failed: '",
    );
    script.append("$i=0; foreach ($app in $vpnApps) { ");
    push_rule(
        &mut script,
        guard,
        "'MouseVPN-KS-v4-'+$adapter.ifIndex+'-'+$i",
        "MouseVPN selected app kill switch IPv4",
        "-Program $app",
        "$blocked",
        "Selected-app IPv4 firewall rule failed for '+$app+': '",
    );
    push_rule(
        &mut script,
        guard,
        "'MouseVPN-KS-v6-'+$adapter.ifIndex+'-'+$i",
        "MouseVPN selected app kill switch IPv6",
        "-Program $app",
        "'Internet6'",
        "Selected-app IPv6 firewall rule failed for '+$app+': '",
    );
    script.append("$i++ }; foreach ($package in $vpnPackages) { ");
    push_rule(
        &mut script,
        guard,
        "'MouseVPN-KS-v4-'+$adapter.ifIndex+'-package-'+$i",
        "MouseVPN selected package kill switch IPv4",
        "-Package $package",
        "$blocked",
        "Selected-package IPv4 firewall rule failed for '+$package+': '",
    );
    push_rule(
        &mut script,
        guard,
        "'MouseVPN-KS-v6-'+$adapter.ifIndex+'-package-'+$i",
        "MouseVPN selected package kill switch IPv6",
        "-Package $package",
        "'Internet6'",
        "Selected-package IPv6 firewall rule failed for '+$package+': '",
    );
    script.append("$i++ } }");
    script
}

/// The script that removes the kill switch.
pub fn cleanup_script() -> (script: String)
    ensures
        script@ == "$rules=@(Get-NetFirewallRule -Group 'MouseVPN Kill Switch' -ErrorAction SilentlyContinue); if ($rules.Count -gt 0) { $rules | Remove-NetFirewallRule -ErrorAction Stop }; exit 0"@,
{
    text::owned("$rules=@(Get-NetFirewallRule -Group 'MouseVPN Kill Switch' -ErrorAction SilentlyContinue); if ($rules.Count -gt 0) { $rules | Remove-NetFirewallRule -ErrorAction Stop }; exit 0")
}

/// The script that reports the state of the policy, given the path of the
/// recovery journal.
pub fn report_script(state_path: &str) -> (script: String)
    ensures
        script@ == "$vpn=Get-NetAdapter -Name 'MouseVPN' -ErrorAction SilentlyContinue; $routes=@(); $dns=@(); $category=$null; $metric=$null; $bindings=@(); $otherDns=@(); if ($vpn) { $routes=@(Get-NetRoute -InterfaceIndex $vpn.ifIndex -ErrorAction SilentlyContinue | Where-Object {$_.DestinationPrefix -in '0.0.0.0/1','128.0.0.0/1'} | Select-Object DestinationPrefix,InterfaceIndex,RouteMetric); $dns=@((Get-DnsClientServerAddress -InterfaceIndex $vpn.ifIndex -AddressFamily IPv4 -ErrorAction SilentlyContinue).ServerAddresses); $metric=(Get-NetIPInterface -InterfaceIndex $vpn.ifIndex -AddressFamily IPv4 -ErrorAction SilentlyContinue).InterfaceMetric; $category=(Get-NetConnectionProfile -InterfaceIndex $vpn.ifIndex -ErrorAction SilentlyContinue).NetworkCategory; $bindings=@(Get-NetAdapterBinding -Name 'MouseVPN' -ErrorAction SilentlyContinue | Where-Object {$_.Enabled -and $_.ComponentID -in 'nt_ndisrd','nt_ndiswgc'} | Select-Object -ExpandProperty ComponentID); $otherDns=@(Get-NetAdapter -ErrorAction SilentlyContinue | Where-Object {$_.ifIndex -ne $vpn.ifIndex -and $_.Status -eq 'Up'} | ForEach-Object { $adapter=$_; $ip=Get-NetIPInterface -InterfaceIndex $adapter.ifIndex -AddressFamily IPv4 -ErrorAction SilentlyContinue; $servers=@((Get-DnsClientServerAddress -InterfaceIndex $adapter.ifIndex -AddressFamily IPv4 -ErrorAction SilentlyContinue).ServerAddresses); if ($servers.Count -gt 0) {[pscustomobject]@{interfaceAlias=$adapter.Name; interfaceMetric=$ip.InterfaceMetric; dnsServers=$servers}} }) }; [ordered]@{ adapterUp=[bool]($vpn -and $vpn.Status -eq 'Up'); routeCount=$routes.Count; firewallRuleCount=@(Get-NetFirewallRule -Group 'MouseVPN Kill Switch' -Enabled True -ErrorAction SilentlyContinue).Count; dnsServers=$dns; interfaceMetric=$metric; networkCategory=$category; incompatibleBindings=$bindings; otherDnsAdapters=$otherDns; stateJournal=Test-Path '"@
            + network::quoted_path(state_path@)
            + "'; ipv6DefaultRoutes=@(Get-NetRoute -AddressFamily IPv6 -DestinationPrefix '::/0' -ErrorAction SilentlyContinue).Count } | ConvertTo-Json -Depth 4 -Compress"@,
{
    let mut script = text::owned("$vpn=Get-NetAdapter -Name 'MouseVPN' -ErrorAction SilentlyContinue; $routes=@(); $dns=@(); $category=$null; $metric=$null; $bindings=@(); $otherDns=@(); if ($vpn) { $routes=@(Get-NetRoute -InterfaceIndex $vpn.ifIndex -ErrorAction SilentlyContinue | Where-Object {$_.DestinationPrefix -in '0.0.0.0/1','128.0.0.0/1'} | Select-Object DestinationPrefix,InterfaceIndex,RouteMetric); $dns=@((Get-DnsClientServerAddress -InterfaceIndex $vpn.ifIndex -AddressFamily IPv4 -ErrorAction SilentlyContinue).ServerAddresses); $metric=(Get-NetIPInterface -InterfaceIndex $vpn.ifIndex -AddressFamily IPv4 -ErrorAction SilentlyContinue).InterfaceMetric; $category=(Get-NetConnectionProfile -InterfaceIndex $vpn.ifIndex -ErrorAction SilentlyContinue).NetworkCategory; $bindings=@(Get-NetAdapterBinding -Name 'MouseVPN' -ErrorAction SilentlyContinue | Where-Object {$_.Enabled -and $_.ComponentID -in 'nt_ndisrd','nt_ndiswgc'} | Select-Object -ExpandProperty ComponentID); $otherDns=@(Get-NetAdapter -ErrorAction SilentlyContinue | Where-Object {$_.ifIndex -ne $vpn.ifIndex -and $_.Status -eq 'Up'} | ForEach-Object { $adapter=$_; $ip=Get-NetIPInterface -InterfaceIndex $adapter.ifIndex -AddressFamily IPv4 -ErrorAction SilentlyContinue; $servers=@((Get-DnsClientServerAddress -InterfaceIndex $adapter.ifIndex -AddressFamily IPv4 -ErrorAction SilentlyContinue).ServerAddresses); if ($servers.Count -gt 0) {[pscustomobject]@{interfaceAlias=$adapter.Name; interfaceMetric=$ip.InterfaceMetric; dnsServers=$servers}} }) }; [ordered]@{ adapterUp=[bool]($vpn -and $vpn.Status -eq 'Up'); routeCount=$routes.Count; firewallRuleCount=@(Get-NetFirewallRule -Group 'MouseVPN Kill Switch' -Enabled True -ErrorAction SilentlyContinue).Count; dnsServers=$dns; interfaceMetric=$metric; networkCategory=$category; incompatibleBindings=$bindings; otherDnsAdapters=$otherDns; stateJournal=Test-Path '");
    script.append(network::powershell_path(state_path).as_str());
    script.append("'; ipv6DefaultRoutes=@(Get-NetRoute -AddressFamily IPv6 -DestinationPrefix '::/0' -ErrorAction SilentlyContinue).Count } | ConvertTo-Json -Depth 4 -Compress");
    script
}

/// A script with its output set to UTF-8.
pub fn encoded_script(script: &str) -> (encoded: String)
    ensures
        encoded@ == "[Console]::OutputEncoding=[System.Text.Encoding]::UTF8; $OutputEncoding=[Console]::OutputEncoding; "@
            + script@,
{
    String::from_str("[Console]::OutputEncoding=[System.Text.Encoding]::UTF8; $OutputEncoding=[Console]::OutputEncoding; ").concat(script)
}

/// Why a script failed: what it wrote, or else how it ended.
pub open spec fn script_failure(
    stdout: Seq<char>,
    stderr: Seq<char>,
    status: Seq<char>,
) -> Seq<char> {
    if text::trim(stderr).len() > 0 {
        text::trim(stderr)
    } else if text::trim(stdout).len() > 0 {
        text::trim(stdout)
    } else {
        "PowerShell exited with status "@ + status
    }
}

/// What running a script to `operation` came to.
pub fn script_result(success: bool, stdout: &str, stderr: &str, status: &str, operation: &str) -> (
    result: Result<String, ClientError>)
    ensures
        result is Ok <==> success,
        result matches Ok(output) ==> output@ == text::trim(stdout@),
        result matches Err(e) ==> is_platform(
            e,
            "failed to "@ + operation@ + ": "@ + script_failure(stdout@, stderr@, status@),
        ),
{
    let output = text::trimmed(stdout);
    if success {
        return Ok(output);
    }
    let errors = text::trimmed(stderr);
    let mut message = text::owned("failed to ");
    message.append(operation);
    message.append(": ");
    let ghost head = message@;
    if !errors.as_str().is_empty() {
        message.append(errors.as_str());
    } else if !output.as_str().is_empty() {
        message.append(output.as_str());
    } else {
        message.append("PowerShell exited with status ");
        message.append(status);
        assert(message@ =~= head + ("PowerShell exited with status "@ + status@));
    }
    Err(ClientError::Platform(message))
}

/// A script that failed is explained by what it wrote as an error, else by what
/// it wrote at all, else by how it ended.
pub proof fn failed_scripts_are_explained(
    stdout: Seq<char>,
    stderr: Seq<char>,
    status: Seq<char>,
)
    ensures
        text::trim(stderr).len() > 0 ==> script_failure(stdout, stderr, status) == text::trim(
            stderr,
        ),
        text::trim(stderr).len() == 0 && text::trim(stdout).len() > 0 ==> script_failure(
            stdout,
            stderr,
            status,
        ) == text::trim(stdout),
        text::trim(stderr).len() == 0 && text::trim(stdout).len() == 0 ==> script_failure(
            stdout,
            stderr,
            status,
        ) == "PowerShell exited with status "@ + status,
{
}

} // verus!
