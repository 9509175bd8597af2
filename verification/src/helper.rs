//! The identifier normalizer: turns the vendor's mixed-case identifiers into
//! snake_case names.
//!
//! Normalization first rewrites a fixed, ordered list of literal patterns
//! (known acronyms and vendor-extension prefixes) into Pascal-cased tokens and
//! strips underscores, then lowercases the result, inserting one underscore
//! before every capital letter that is not the first character. The whole
//! pipeline is a pure function of its input string: the same identifier always
//! normalizes to the same name.

use vstd::prelude::*;
use crate::text::{chars_of_str, string_of_chars, lower_char, lower_char_spec, is_ascii_upper};

verus! {

/// Every occurrence of `pat` in `s`, scanning left to right and never
/// re-examining replaced text, rewritten to `rep`. An empty pattern matches
/// nowhere.
pub open spec fn replace_spec(s: Seq<char>, pat: Seq<char>, rep: Seq<char>) -> Seq<char>
    decreases s.len(),
{
    if pat.len() == 0 || s.len() < pat.len() {
        s
    } else if s.take(pat.len() as int) == pat {
        rep + replace_spec(s.skip(pat.len() as int), pat, rep)
    } else {
        seq![s[0]] + replace_spec(s.skip(1), pat, rep)
    }
}

/// What one character contributes to the snake_case form: a capital letter is
/// lowercased and, unless it stands first, preceded by an underscore.
pub open spec fn split_char_spec(c: char, first: bool) -> Seq<char> {
    if is_ascii_upper(c) {
        if first {
            seq![lower_char_spec(c)]
        } else {
            seq!['_', lower_char_spec(c)]
        }
    } else {
        seq![c]
    }
}

/// The snake_case rewriting of the characters of `s` from position `i` on.
pub open spec fn case_split_from(s: Seq<char>, i: int) -> Seq<char>
    decreases s.len() - i,
{
    if i < 0 || i >= s.len() {
        Seq::empty()
    } else {
        split_char_spec(s[i], i == 0) + case_split_from(s, i + 1)
    }
}

/// The snake_case rewriting of a whole character sequence.
pub open spec fn case_split_spec(s: Seq<char>) -> Seq<char> {
    case_split_from(s, 0)
}

/// Tests whether `pat` occurs in `s` at position `i`.
fn match_at(s: &Vec<char>, i: usize, pat: &Vec<char>) -> (r: bool)
    requires
        i + pat@.len() <= s@.len(),
    ensures
        r == (s@.subrange(i as int, i as int + pat@.len() as int) == pat@),
{
    let ghost sub = s@.subrange(i as int, i as int + pat@.len() as int);
    let n = s.len();
    let mut j: usize = 0;
    while j < pat.len()
        invariant
            j <= pat@.len(),
            n == s@.len(),
            i + pat@.len() <= s@.len(),
            sub == s@.subrange(i as int, i as int + pat@.len() as int),
            forall|k: int| 0 <= k < j ==> s@[i + k] == pat@[k],
        decreases pat@.len() - j,
    {
        if s[i + j] != pat[j] {
            proof {
                assert(sub[j as int] == s@[i + j]);
            }
            return false;
        }
        j = j + 1;
    }
    proof {
        assert(sub =~= pat@);
    }
    true
}

/// Rewrites every occurrence of `pat` in `s` to `rep`, scanning left to right.
fn replace_all(s: &Vec<char>, pat: &Vec<char>, rep: &Vec<char>) -> (r: Vec<char>)
    ensures
        r@ == replace_spec(s@, pat@, rep@),
{
    let plen = pat.len();
    let mut out: Vec<char> = Vec::new();
    if plen == 0 {
        let mut i: usize = 0;
        while i < s.len()
            invariant
                i <= s@.len(),
                out@ == s@.take(i as int),
            decreases s@.len() - i,
        {
            out.push(s[i]);
            i = i + 1;
            proof {
                assert(out@ =~= s@.take(i as int));
            }
        }
        proof {
            assert(s@.take(s@.len() as int) =~= s@);
        }
        return out;
    }
    let mut i: usize = 0;
    proof {
        assert(s@.skip(0) =~= s@);
        assert(out@ + replace_spec(s@, pat@, rep@) =~= replace_spec(s@, pat@, rep@));
    }
    while i < s.len()
        invariant
            i <= s@.len(),
            pat@.len() == plen,
            plen >= 1,
            replace_spec(s@, pat@, rep@) == out@ + replace_spec(s@.skip(i as int), pat@, rep@),
        decreases s@.len() - i,
    {
        let ghost rem = s@.skip(i as int);
        proof {
            assert(rem.len() == s@.len() - i);
        }
        if plen <= s.len() - i && match_at(s, i, pat) {
            proof {
                assert(rem.take(pat@.len() as int) =~= s@.subrange(
                    i as int,
                    i as int + pat@.len() as int,
                ));
                assert(rem.skip(pat@.len() as int) =~= s@.skip(i + plen));
                assert(replace_spec(rem, pat@, rep@) == rep@ + replace_spec(
                    s@.skip(i + plen),
                    pat@,
                    rep@,
                ));
            }
            let ghost out_before = out@;
            let mut j: usize = 0;
            while j < rep.len()
                invariant
                    j <= rep@.len(),
                    out@ == out_before + rep@.take(j as int),
                decreases rep@.len() - j,
            {
                out.push(rep[j]);
                j = j + 1;
                proof {
                    assert(out@ =~= out_before + rep@.take(j as int));
                }
            }
            proof {
                assert(rep@.take(rep@.len() as int) =~= rep@);
                assert((out_before + rep@) + replace_spec(s@.skip(i + plen), pat@, rep@)
                    =~= out_before + (rep@ + replace_spec(s@.skip(i + plen), pat@, rep@)));
            }
            i = i + plen;
        } else {
            proof {
                assert(rem[0] == s@[i as int]);
                assert(rem.skip(1) =~= s@.skip(i + 1));
                if plen <= s@.len() - i {
                    assert(rem.take(pat@.len() as int) =~= s@.subrange(
                        i as int,
                        i as int + pat@.len() as int,
                    ));
                    assert(replace_spec(rem, pat@, rep@) == seq![rem[0]] + replace_spec(
                        s@.skip(i + 1),
                        pat@,
                        rep@,
                    ));
                } else {
                    assert(rem.len() < pat@.len());
                    assert(replace_spec(rem, pat@, rep@) == rem);
                    assert(s@.skip(i + 1).len() < pat@.len());
                    assert(replace_spec(s@.skip(i + 1), pat@, rep@) == s@.skip(i + 1));
                    assert(rem =~= seq![rem[0]] + s@.skip(i + 1));
                }
                assert(replace_spec(rem, pat@, rep@) == seq![s@[i as int]] + replace_spec(
                    s@.skip(i + 1),
                    pat@,
                    rep@,
                ));
            }
            out.push(s[i]);
            proof {
                assert((out@.drop_last() + seq![s@[i as int]]) + replace_spec(
                    s@.skip(i + 1),
                    pat@,
                    rep@,
                ) =~= out@.drop_last() + (seq![s@[i as int]] + replace_spec(
                    s@.skip(i + 1),
                    pat@,
                    rep@,
                )));
                assert(out@.drop_last() + seq![s@[i as int]] =~= out@);
            }
            i = i + 1;
        }
    }
    proof {
        assert(s@.skip(s@.len() as int).len() == 0);
        assert(replace_spec(s@.skip(s@.len() as int), pat@, rep@) == s@.skip(s@.len() as int));
        assert(out@ + s@.skip(s@.len() as int) =~= out@);
    }
    out
}

/// Applies one rewriting step of the pattern table.
fn replace_lit(v: &Vec<char>, pat: &str, rep: &str) -> (r: Vec<char>)
    ensures
        r@ == replace_spec(v@, pat@, rep@),
{
    let p = chars_of_str(pat);
    let q = chars_of_str(rep);
    replace_all(v, &p, &q)
}

/// The ordered pattern rewriting pass: vendor-extension prefixes first, then
/// the underscore strip, then the acronym table, longer patterns before the
/// shorter patterns they contain.
pub open spec fn folded_spec(s: Seq<char>) -> Seq<char> {
    let s = replace_spec(s, "NewX_AVM-DE_"@, "newXAvmDe"@);
    let s = replace_spec(s, "NewX_AVM_DE_"@, "newXAvmDe"@);
    let s = replace_spec(s, "X_AVM-DE_"@, "XAvmDe"@);
    let s = replace_spec(s, "X_"@, "x"@);
    let s = replace_spec(s, "_"@, ""@);
    let s = replace_spec(s, "NATRSIP"@, "NatRsip"@);
    let s = replace_spec(s, "NAT"@, "Nat"@);
    let s = replace_spec(s, "RSIP"@, "Rsip"@);
    let s = replace_spec(s, "FCS"@, "Fcs"@);
    let s = replace_spec(s, "ATM"@, "Atm"@);
    let s = replace_spec(s, "DAV"@, "Dav"@);
    let s = replace_spec(s, "PPP"@, "Ppp"@);
    let s = replace_spec(s, "WAN"@, "Wan"@);
    let s = replace_spec(s, "MAC"@, "Mac"@);
    let s = replace_spec(s, "AIN"@, "Ain"@);
    let s = replace_spec(s, "DDNS"@, "Ddns"@);
    let s = replace_spec(s, "DNS"@, "Dns"@);
    let s = replace_spec(s, "IPTVo"@, "IptvO"@);
    let s = replace_spec(s, "IPTV"@, "Iptv"@);
    let s = replace_spec(s, "US"@, "Us"@);
    let s = replace_spec(s, "VoIP"@, "Voip"@);
    let s = replace_spec(s, "AVM"@, "Avm"@);
    let s = replace_spec(s, "URL"@, "Url"@);
    let s = replace_spec(s, "ATUC"@, "Atuc"@);
    let s = replace_spec(s, "CHECK"@, "Check"@);
    let s = replace_spec(s, "DSL"@, "Dsl"@);
    let s = replace_spec(s, "DS"@, "Ds"@);
    let s = replace_spec(s, "SNRG"@, "Snrg_"@);
    let s = replace_spec(s, "SNRMT"@, "Snrmt_"@);
    let s = replace_spec(s, "SNR"@, "Snr_"@);
    let s = replace_spec(s, "LATN"@, "Latn_"@);
    let s = replace_spec(s, "HEC"@, "Hec"@);
    let s = replace_spec(s, "TAM"@, "Tam"@);
    let s = replace_spec(s, "OKZ"@, "Okz"@);
    let s = replace_spec(s, "LKZ"@, "Lkz"@);
    let s = replace_spec(s, "OKZ"@, "Okz"@);
    let s = replace_spec(s, "STUN"@, "Stun"@);
    let s = replace_spec(s, "UPnP"@, "Upnp"@);
    let s = replace_spec(s, "FTP"@, "Ftp"@);
    let s = replace_spec(s, "SSL"@, "Ssl"@);
    let s = replace_spec(s, "SMB"@, "Smb"@);
    let s = replace_spec(s, "CGI"@, "Cgi"@);
    let s = replace_spec(s, "NTP"@, "Ntp"@);
    let s = replace_spec(s, "TR069"@, "Tr069"@);
    let s = replace_spec(s, "BSSID"@, "Bssid"@);
    let s = replace_spec(s, "SSID"@, "Ssid"@);
    let s = replace_spec(s, "SID"@, "Sid"@);
    let s = replace_spec(s, "UUID"@, "Uuid"@);
    let s = replace_spec(s, "OUI"@, "Oui"@);
    let s = replace_spec(s, "ATUR"@, "Atur"@);
    let s = replace_spec(s, "FEC"@, "Fec"@);
    let s = replace_spec(s, "CRC"@, "Crc"@);
    let s = replace_spec(s, "PSK"@, "Psk"@);
    let s = replace_spec(s, "WEP"@, "Wep"@);
    let s = replace_spec(s, "WPA"@, "Wpa"@);
    let s = replace_spec(s, "WLAN"@, "Wlan"@);
    let s = replace_spec(s, "LAN"@, "Lan"@);
    let s = replace_spec(s, "AP"@, "Ap"@);
    let s = replace_spec(s, "WPS"@, "Wps"@);
    let s = replace_spec(s, "RX"@, "Rx"@);
    let s = replace_spec(s, "WOL"@, "Wol"@);
    let s = replace_spec(s, "DHCP"@, "Dhcp"@);
    let s = replace_spec(s, "ID"@, "Id"@);
    let s = replace_spec(s, "IP"@, "Ip"@);
    s
}

/// What `rustify_string` returns: the pattern pass followed by the snake_case
/// split.
pub open spec fn rustify_spec(s: Seq<char>) -> Seq<char> {
    case_split_spec(folded_spec(s))
}

/// Normalization is pure and stable: it consults nothing but its input, so
/// any two results of normalizing the same characters — in one run or across
/// runs, whatever was normalized before — are the same characters.
pub proof fn lemma_normalize_stable(s: Seq<char>, r1: Seq<char>, r2: Seq<char>)
    requires
        r1 == rustify_spec(s),
        r2 == rustify_spec(s),
    ensures
        r1 == r2,
{
}

/// The snake_case split of a character vector.
fn case_split(v: &Vec<char>) -> (r: Vec<char>)
    ensures
        r@ == case_split_spec(v@),
{
    let mut out: Vec<char> = Vec::new();
    let mut i: usize = 0;
    while i < v.len()
        invariant
            i <= v@.len(),
            case_split_spec(v@) == out@ + case_split_from(v@, i as int),
        decreases v@.len() - i,
    {
        let ghost out_before = out@;
        let c = v[i];
        let u = c as u32;
        if 65 <= u && u <= 90 {
            if i != 0 {
                out.push('_');
            }
            out.push(lower_char(c));
        } else {
            out.push(c);
        }
        proof {
            assert(out@ =~= out_before + split_char_spec(v@[i as int], i == 0));
            assert((out_before + split_char_spec(v@[i as int], i == 0)) + case_split_from(
                v@,
                i + 1,
            ) =~= out_before + (split_char_spec(v@[i as int], i == 0) + case_split_from(v@, i + 1)));
        }
        i = i + 1;
    }
    proof {
        assert(out@ + case_split_from(v@, v@.len() as int) =~= out@);
    }
    out
}

/// Normalizes one vendor identifier into a snake_case name. The result is a
/// pure function of the input: no state of any kind is consulted.
pub fn rustify_string(input: &str) -> (r: String)
    ensures
        r@ == rustify_spec(input@),
{
    let v = chars_of_str(input);
    let v = replace_lit(&v, "NewX_AVM-DE_", "newXAvmDe");
    let v = replace_lit(&v, "NewX_AVM_DE_", "newXAvmDe");
    let v = replace_lit(&v, "X_AVM-DE_", "XAvmDe");
    let v = replace_lit(&v, "X_", "x");
    let v = replace_lit(&v, "_", "");
    let v = replace_lit(&v, "NATRSIP", "NatRsip");
    let v = replace_lit(&v, "NAT", "Nat");
    let v = replace_lit(&v, "RSIP", "Rsip");
    let v = replace_lit(&v, "FCS", "Fcs");
    let v = replace_lit(&v, "ATM", "Atm");
    let v = replace_lit(&v, "DAV", "Dav");
    let v = replace_lit(&v, "PPP", "Ppp");
    let v = replace_lit(&v, "WAN", "Wan");
    let v = replace_lit(&v, "MAC", "Mac");
    let v = replace_lit(&v, "AIN", "Ain");
    let v = replace_lit(&v, "DDNS", "Ddns");
    let v = replace_lit(&v, "DNS", "Dns");
    let v = replace_lit(&v, "IPTVo", "IptvO");
    let v = replace_lit(&v, "IPTV", "Iptv");
    let v = replace_lit(&v, "US", "Us");
    let v = replace_lit(&v, "VoIP", "Voip");
    let v = replace_lit(&v, "AVM", "Avm");
    let v = replace_lit(&v, "URL", "Url");
    let v = replace_lit(&v, "ATUC", "Atuc");
    let v = replace_lit(&v, "CHECK", "Check");
    let v = replace_lit(&v, "DSL", "Dsl");
    let v = replace_lit(&v, "DS", "Ds");
    let v = replace_lit(&v, "SNRG", "Snrg_");
    let v = replace_lit(&v, "SNRMT", "Snrmt_");
    let v = replace_lit(&v, "SNR", "Snr_");
    let v = replace_lit(&v, "LATN", "Latn_");
    let v = replace_lit(&v, "HEC", "Hec");
    let v = replace_lit(&v, "TAM", "Tam");
    let v = replace_lit(&v, "OKZ", "Okz");
    let v = replace_lit(&v, "LKZ", "Lkz");
    let v = replace_lit(&v, "OKZ", "Okz");
    let v = replace_lit(&v, "STUN", "Stun");
    let v = replace_lit(&v, "UPnP", "Upnp");
    let v = replace_lit(&v, "FTP", "Ftp");
    let v = replace_lit(&v, "SSL", "Ssl");
    let v = replace_lit(&v, "SMB", "Smb");
    let v = replace_lit(&v, "CGI", "Cgi");
    let v = replace_lit(&v, "NTP", "Ntp");
    let v = replace_lit(&v, "TR069", "Tr069");
    let v = replace_lit(&v, "BSSID", "Bssid");
    let v = replace_lit(&v, "SSID", "Ssid");
    let v = replace_lit(&v, "SID", "Sid");
    let v = replace_lit(&v, "UUID", "Uuid");
    let v = replace_lit(&v, "OUI", "Oui");
    let v = replace_lit(&v, "ATUR", "Atur");
    let v = replace_lit(&v, "FEC", "Fec");
    let v = replace_lit(&v, "CRC", "Crc");
    let v = replace_lit(&v, "PSK", "Psk");
    let v = replace_lit(&v, "WEP", "Wep");
    let v = replace_lit(&v, "WPA", "Wpa");
    let v = replace_lit(&v, "WLAN", "Wlan");
    let v = replace_lit(&v, "LAN", "Lan");
    let v = replace_lit(&v, "AP", "Ap");
    let v = replace_lit(&v, "WPS", "Wps");
    let v = replace_lit(&v, "RX", "Rx");
    let v = replace_lit(&v, "WOL", "Wol");
    let v = replace_lit(&v, "DHCP", "Dhcp");
    let v = replace_lit(&v, "ID", "Id");
    let v = replace_lit(&v, "IP", "Ip");
    let out = case_split(&v);
    string_of_chars(&out)
}

} // verus!
