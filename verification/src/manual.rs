//! Manual pairing, where the user types the phone's address, pairing port
//! and code: checking the input, reading what `adb pair` prints, and
//! finding the phone's debugging port afterwards.
use vstd::prelude::*;
use vstd::utf8::{decode_utf8, encode_utf8, is_char_boundary};
use vstd::string::StringSliceAdditionalSpecFns;
use crate::text::{
    all_ascii_digits, ascii_lower_seq, ascii_lowercase, chars_equal, chars_of, concat_str,
    contains_chars, has_infix, has_suffix, lines, matches_at, owned, parse_u16, parse_u16_spec,
    split_lines, split_words, string_of, string_of_all, trim, trimmed_chars, views, words,
};

verus! {

broadcast use vstd::string::group_string_axioms;

// ---------------------------------------------------------------------------
// The form
// ---------------------------------------------------------------------------
/// Why the manual pairing form was refused.
#[derive(Clone, Copy, Debug, PartialEq, Eq, Structural)]
pub enum ManualPairingError {
    MissingIp,
    MissingPort,
    InvalidCode,
}

impl ManualPairingError {
    /// The message shown under the form.
    pub fn message(&self) -> (m: &'static str)
        ensures
            m@ == (match *self {
                ManualPairingError::MissingIp => "Please enter the device IP address."@,
                ManualPairingError::MissingPort => "Please enter the pairing port."@,
                ManualPairingError::InvalidCode => "Please enter the 6-digit pairing code."@,
            }),
    {
        match self {
            ManualPairingError::MissingIp => "Please enter the device IP address.",
            ManualPairingError::MissingPort => "Please enter the pairing port.",
            ManualPairingError::InvalidCode => "Please enter the 6-digit pairing code.",
        }
    }
}

/// Whether a pairing code is acceptable: six ASCII digits once trimmed.
/// (Six ASCII digits are six bytes, so this is the byte-length test that
/// the form makes.)
pub open spec fn valid_code(code: Seq<char>) -> bool {
    trim(code).len() == 6 && all_ascii_digits(trim(code))
}

/// The verdict on the form: the address, then the port, must not be blank,
/// and the code must be valid.
pub open spec fn manual_form_spec(ip: Seq<char>, port: Seq<char>, code: Seq<char>) -> Result<
    (),
    ManualPairingError,
> {
    if trim(ip).len() == 0 {
        Err(ManualPairingError::MissingIp)
    } else if trim(port).len() == 0 {
        Err(ManualPairingError::MissingPort)
    } else if !valid_code(code) {
        Err(ManualPairingError::InvalidCode)
    } else {
        Ok(())
    }
}

/// Checks the manual pairing form.
pub fn validate_manual_pairing(ip: &str, port: &str, code: &str) -> (r: Result<
    (),
    ManualPairingError,
>)
    ensures
        r == manual_form_spec(ip@, port@, code@),
{
    let i = trimmed_chars(ip);
    if i.len() == 0 {
        return Err(ManualPairingError::MissingIp);
    }
    let p = trimmed_chars(port);
    if p.len() == 0 {
        return Err(ManualPairingError::MissingPort);
    }
    let c = trimmed_chars(code);
    if c.len() != 6 {
        return Err(ManualPairingError::InvalidCode);
    }
    let mut k: usize = 0;
    while k < c.len()
        invariant
            k <= c.len(),
            c.len() == 6,
            trim(ip@).len() > 0,
            trim(port@).len() > 0,
            c@ == trim(code@),
            forall|j: int| 0 <= j < k ==> crate::text::is_ascii_digit(#[trigger] c@[j]),
        decreases c.len() - k,
    {
        if !('0' <= c[k] && c[k] <= '9') {
            assert(!crate::text::is_ascii_digit(c@[k as int]));
            assert(trim(code@)[k as int] == c@[k as int]);
            assert(!all_ascii_digits(trim(code@)));
            return Err(ManualPairingError::InvalidCode);
        }
        k = k + 1;
    }
    Ok(())
}

/// `"<ip>:<port>"` with both parts trimmed: where `adb pair` reaches the
/// phone.
pub fn manual_pair_address(ip: &str, port: &str) -> (s: String)
    ensures
        s@ == trim(ip@) + ":"@ + trim(port@),
{
    let mut v = trimmed_chars(ip);
    v.push(':');
    let p = trimmed_chars(port);
    let mut k: usize = 0;
    let ghost head = v@;
    while k < p.len()
        invariant
            k <= p.len(),
            v@ == head + p@.take(k as int),
        decreases p.len() - k,
    {
        v.push(p[k]);
        k = k + 1;
        assert(v@ =~= head + p@.take(k as int));
    }
    proof {
        reveal_strlit(":");
        assert(p@.take(p.len() as int) == p@);
    }
    assert(v@ =~= trim(ip@) + ":"@ + trim(port@));
    string_of_all(&v)
}

// ---------------------------------------------------------------------------
// What adb pair prints
// ---------------------------------------------------------------------------
/// Whether a line reports a successful pairing, in any letter case.
pub open spec fn success_line(line: Seq<char>) -> bool {
    let l = ascii_lower_seq(line);
    ||| has_infix(l, "successfully paired"@)
    ||| has_infix(l, "pairing successful"@)
    ||| has_infix(l, "pairing established"@)
    ||| has_infix(l, "paired"@) && has_infix(l, "success"@)
}

/// Whether a line reports a failure, in any letter case.
pub open spec fn failure_line(line: Seq<char>) -> bool {
    let l = ascii_lower_seq(line);
    ||| has_infix(l, "error:"@)
    ||| has_infix(l, "failed"@)
    ||| has_infix(l, "refused"@)
    ||| has_infix(l, "connection refused"@)
}

/// What a run of output lines tells, when a success was `found` before:
/// whether a success has been seen by the end, whether it was first seen
/// in these lines, and the first failure line (trimmed), at which reading
/// stops.  Blank lines are skipped.
pub open spec fn scan_lines(ls: Seq<Seq<char>>, found: bool) -> (bool, bool, Option<Seq<char>>)
    decreases ls.len(),
{
    if ls.len() == 0 {
        (found, false, None)
    } else {
        let t = trim(ls[0]);
        if t.len() == 0 {
            scan_lines(ls.drop_first(), found)
        } else {
            let newly = !found && success_line(t);
            let f2 = found || newly;
            if failure_line(t) {
                (f2, newly, Some(t))
            } else {
                let r = scan_lines(ls.drop_first(), f2);
                (r.0, newly || r.1, r.2)
            }
        }
    }
}

/// A line of `adb pair` output that announces a failure: not blank once
/// trimmed, and its ASCII lower case contains `error:`, `failed`, `refused`
/// or `connection refused`.
pub open spec fn announces_failure(line: Seq<char>) -> bool {
    let l = ascii_lower_seq(trim(line));
    &&& trim(line).len() > 0
    &&& (has_infix(l, "error:"@) || has_infix(l, "failed"@) || has_infix(l, "refused"@)
        || has_infix(l, "connection refused"@))
}

/// A line of `adb pair` output that announces a success: not blank once
/// trimmed, and its ASCII lower case contains `successfully paired`,
/// `pairing successful`, `pairing established`, or both `paired` and
/// `success`.
pub open spec fn announces_success(line: Seq<char>) -> bool {
    let l = ascii_lower_seq(trim(line));
    &&& trim(line).len() > 0
    &&& (has_infix(l, "successfully paired"@) || has_infix(l, "pairing successful"@) || has_infix(
        l,
        "pairing established"@,
    ) || (has_infix(l, "paired"@) && has_infix(l, "success"@)))
}

/// Reading stops at the first line that announces a failure and reports
/// that line, trimmed; with no such line, no failure is reported.
pub proof fn lemma_scan_reports_first_failure(ls: Seq<Seq<char>>, found: bool)
    ensures
        (forall|j: int| 0 <= j < ls.len() ==> !announces_failure(#[trigger] ls[j])) ==> scan_lines(
            ls,
            found,
        ).2 is None,
        forall|k: int|
            0 <= k < ls.len() && announces_failure(#[trigger] ls[k]) && (forall|j: int|
                0 <= j < k ==> !announces_failure(#[trigger] ls[j])) ==> scan_lines(ls, found).2
                == Some(trim(ls[k])),
    decreases ls.len(),
{
    if ls.len() > 0 {
        let t = trim(ls[0]);
        let f2 = found || (!found && success_line(t));
        lemma_scan_reports_first_failure(ls.drop_first(), found);
        lemma_scan_reports_first_failure(ls.drop_first(), f2);
        assert(t.len() > 0 ==> (failure_line(t) == announces_failure(ls[0])));
        if forall|j: int| 0 <= j < ls.len() ==> !announces_failure(#[trigger] ls[j]) {
            assert forall|j: int| 0 <= j < ls.drop_first().len() implies !announces_failure(
                #[trigger] ls.drop_first()[j],
            ) by {
                assert(ls.drop_first()[j] == ls[j + 1]);
            }
            assert(!announces_failure(ls[0]));
        }
        assert forall|k: int|
            0 <= k < ls.len() && announces_failure(#[trigger] ls[k]) && (forall|j: int|
                0 <= j < k ==> !announces_failure(#[trigger] ls[j])) implies scan_lines(ls, found).2
            == Some(trim(ls[k])) by {
            if k > 0 {
                assert(!announces_failure(ls[0]));
                assert(ls.drop_first()[k - 1] == ls[k]);
                assert forall|j: int| 0 <= j < k - 1 implies !announces_failure(
                    #[trigger] ls.drop_first()[j],
                ) by {
                    assert(ls.drop_first()[j] == ls[j + 1]);
                }
            }
        }
    }
}

/// Whether line `k` of `ls` announces a success and no line before it
/// announces a failure.
pub open spec fn success_at(ls: Seq<Seq<char>>, k: int) -> bool {
    &&& 0 <= k < ls.len()
    &&& announces_success(ls[k])
    &&& forall|j: int| 0 <= j < k ==> !announces_failure(#[trigger] ls[j])
}

/// A success is seen by the end of some output exactly when one was seen
/// before, or some line announces a success with no failure announced
/// before it; a success seen in this output is reported as new exactly when
/// none was seen before.
pub proof fn lemma_scan_finds_success(ls: Seq<Seq<char>>, found: bool)
    ensures
        scan_lines(ls, found).0 <==> found || exists|k: int| #[trigger] success_at(ls, k),
        !found ==> scan_lines(ls, found).1 == scan_lines(ls, found).0,
        found ==> !scan_lines(ls, found).1,
    decreases ls.len(),
{
    lemma_success_is_kept(ls);
    if ls.len() > 0 {
        let t = trim(ls[0]);
        let f2 = found || (!found && success_line(t));
        let tail = ls.drop_first();
        lemma_scan_finds_success(tail, found);
        lemma_scan_finds_success(tail, f2);
        assert(t.len() > 0 ==> (failure_line(t) == announces_failure(ls[0])));
        assert(t.len() > 0 ==> (success_line(t) == announces_success(ls[0])));
        assert forall|k: int| k > 0 && #[trigger] success_at(ls, k) implies success_at(
            tail,
            k - 1,
        ) by {
            assert(tail[k - 1] == ls[k]);
            assert forall|j: int| 0 <= j < k - 1 implies !announces_failure(#[trigger] tail[j]) by {
                assert(tail[j] == ls[j + 1]);
            }
        }
        assert forall|k: int| #[trigger] success_at(tail, k) && !announces_failure(
            ls[0],
        ) implies success_at(ls, k + 1) by {
            assert(tail[k] == ls[k + 1]);
            assert forall|j: int| 0 <= j < k + 1 implies !announces_failure(#[trigger] ls[j]) by {
                if j > 0 {
                    assert(tail[j - 1] == ls[j]);
                }
            }
        }
        if exists|k: int| #[trigger] success_at(ls, k) {
            let k = choose|k: int| #[trigger] success_at(ls, k);
            if k > 0 {
                assert(success_at(tail, k - 1));
            }
        }
        if exists|k: int| #[trigger] success_at(tail, k) {
            let k = choose|k: int| #[trigger] success_at(tail, k);
            if !announces_failure(ls[0]) {
                assert(success_at(ls, k + 1));
            }
        }
        if announces_success(ls[0]) {
            assert(success_at(ls, 0));
        }
    }
}

/// Once a success has been seen, reading more output keeps it and never
/// reports a success again, so the phone is announced once.
pub proof fn lemma_success_is_kept(ls: Seq<Seq<char>>)
    ensures
        scan_lines(ls, true).0,
        !scan_lines(ls, true).1,
    decreases ls.len(),
{
    if ls.len() > 0 {
        lemma_success_is_kept(ls.drop_first());
    }
}

/// What one chunk of `adb pair` output told.
pub struct ScanReport {
    /// A success was first seen in this chunk.
    pub success_found: bool,
    /// The first failure line of the chunk; nothing after it was read.
    pub failure: Option<String>,
}

/// Reads the output of `adb pair`, remembering whether a success was seen.
pub struct PairOutputScanner {
    found_success: bool,
}

impl PairOutputScanner {
    pub closed spec fn found(&self) -> bool {
        self.found_success
    }

    /// A scanner that has seen nothing yet.
    pub fn new() -> (s: PairOutputScanner)
        ensures
            !s.found(),
    {
        PairOutputScanner { found_success: false }
    }

    /// Whether a success has been seen.
    pub fn found_success(&self) -> (b: bool)
        ensures
            b == self.found(),
    {
        self.found_success
    }

    fn line_patterns() -> (r: (Vec<Vec<char>>, Vec<Vec<char>>))
        ensures
            r.0@.len() == 5,
            r.0@[0]@ == "successfully paired"@,
            r.0@[1]@ == "pairing successful"@,
            r.0@[2]@ == "pairing established"@,
            r.0@[3]@ == "paired"@,
            r.0@[4]@ == "success"@,
            r.1@.len() == 4,
            r.1@[0]@ == "error:"@,
            r.1@[1]@ == "failed"@,
            r.1@[2]@ == "refused"@,
            r.1@[3]@ == "connection refused"@,
    {
        let mut ok: Vec<Vec<char>> = Vec::new();
        ok.push(chars_of("successfully paired"));
        ok.push(chars_of("pairing successful"));
        ok.push(chars_of("pairing established"));
        ok.push(chars_of("paired"));
        ok.push(chars_of("success"));
        let mut bad: Vec<Vec<char>> = Vec::new();
        bad.push(chars_of("error:"));
        bad.push(chars_of("failed"));
        bad.push(chars_of("refused"));
        bad.push(chars_of("connection refused"));
        (ok, bad)
    }

    /// Reads one chunk of output.
    pub fn scan_chunk(&mut self, chunk: &str) -> (report: ScanReport)
        ensures
            (final(self).found(), report.success_found, match report.failure {
                Some(f) => Some(f@),
                None => None,
            }) == scan_lines(lines(chunk@), old(self).found()),
    {
        let (ok, bad) = Self::line_patterns();
        let text = chars_of(chunk);
        let ls = split_lines(&text);
        let ghost all = lines(chunk@);
        let ghost start = old(self).found();
        let mut newly_any = false;
        let mut i: usize = 0;
        assert(all.skip(0) == all);
        while i < ls.len()
            invariant
                i <= ls.len(),
                ls@.len() == all.len(),
                forall|k: int| 0 <= k < ls@.len() ==> #[trigger] ls@[k]@ == all[k],
                ok@.len() == 5,
                ok@[0]@ == "successfully paired"@,
                ok@[1]@ == "pairing successful"@,
                ok@[2]@ == "pairing established"@,
                ok@[3]@ == "paired"@,
                ok@[4]@ == "success"@,
                bad@.len() == 4,
                bad@[0]@ == "error:"@,
                bad@[1]@ == "failed"@,
                bad@[2]@ == "refused"@,
                bad@[3]@ == "connection refused"@,
                start == old(self).found(),
                all == lines(chunk@),
                ({
                    let r = scan_lines(all.skip(i as int), self.found_success);
                    scan_lines(all, start) == (r.0, newly_any || r.1, r.2)
                }),
            decreases ls.len() - i,
        {
            proof {
                assert(all.skip(i as int)[0] == all[i as int]);
                assert(all.skip(i as int).drop_first() == all.skip(i + 1));
            }
            let t = trimmed_chars_of_vec(&ls[i]);
            if t.len() > 0 {
                let l = ascii_lowercase(&t);
                let success = contains_chars(&l, &ok[0]) || contains_chars(&l, &ok[1])
                    || contains_chars(&l, &ok[2]) || (contains_chars(&l, &ok[3]) && contains_chars(
                    &l,
                    &ok[4],
                ));
                let failure = contains_chars(&l, &bad[0]) || contains_chars(&l, &bad[1])
                    || contains_chars(&l, &bad[2]) || contains_chars(&l, &bad[3]);
                proof {
                    assert(t@ == trim(all[i as int]));
                    assert(success == success_line(t@));
                    assert(failure == failure_line(t@));
                }
                let ghost found_before = self.found_success;
                let newly = !self.found_success && success;
                if newly {
                    self.found_success = true;
                    newly_any = true;
                }
                if failure {
                    let f = string_of_all(&t);
                    assert(f@ == trim(all[i as int]));
                    assert(scan_lines(all.skip(i as int), found_before) == (
                        found_before || newly,
                        newly,
                        Some(t@),
                    ));

                    return ScanReport { success_found: newly_any, failure: Some(f) };
                }
            }
            i = i + 1;
        }
        proof {
            assert(all.skip(i as int).len() == 0);
        }
        ScanReport { success_found: newly_any, failure: None }
    }

    /// The failure to report when the output ends: none after a success.
    pub fn finish(&self) -> (r: Option<String>)
        ensures
            self.found() ==> r is None,
            !self.found() ==> (r matches Some(m) && m@ == "Pairing process ended unexpectedly"@),
    {
        if self.found_success {
            None
        } else {
            Some(owned("Pairing process ended unexpectedly"))
        }
    }
}

/// `trim` of a vector of characters.
fn trimmed_chars_of_vec(v: &Vec<char>) -> (t: Vec<char>)
    ensures
        t@ == trim(v@),
{
    let (a, b) = crate::text::trim_bounds(v);
    let mut t: Vec<char> = Vec::new();
    let mut i = a;
    while i < b
        invariant
            a <= i <= b <= v.len(),
            t@ == v@.subrange(a as int, i as int),
        decreases b - i,
    {
        t.push(v[i]);
        i = i + 1;
    }
    t
}

// ---------------------------------------------------------------------------
// The debugging port after pairing
// ---------------------------------------------------------------------------
/// The position of the first `':'` in `s`, or -1.
pub open spec fn colon_index(s: Seq<char>) -> int
    decreases s.len(),
{
    if s.len() == 0 {
        -1
    } else if s[0] == ':' {
        0
    } else {
        let r = colon_index(s.drop_first());
        if r < 0 {
            -1
        } else {
            r + 1
        }
    }
}

/// The first `':'`-separated field of `s` (`split(':').next()`).
pub open spec fn first_field(s: Seq<char>) -> Seq<char> {
    if colon_index(s) < 0 {
        s
    } else {
        s.take(colon_index(s))
    }
}

/// The second `':'`-separated field of `s` (`split(':').nth(1)`).
pub open spec fn second_field(s: Seq<char>) -> Option<Seq<char>> {
    if colon_index(s) < 0 {
        None
    } else {
        Some(first_field(s.skip(colon_index(s) + 1)))
    }
}

/// What one line of `adb devices -l` tells about the phone at `ip`.
pub enum PortVerdict {
    /// Not the phone: read on.
    Skip,
    /// The phone's entry is malformed: give up.
    Abort,
    /// The phone's address and debugging port.
    Found(Seq<char>, u16),
}

/// The verdict on the address of an attached device: `ip` with port 5555,
/// or a first field that is `ip` followed by a port.
pub open spec fn addr_debug_port(addr: Seq<char>, ip: Seq<char>) -> PortVerdict {
    if has_suffix(addr, ":5555"@) && addr.take(addr.len() - 5) == ip {
        PortVerdict::Found(ip, 5555)
    } else if first_field(addr) != ip {
        PortVerdict::Skip
    } else {
        match second_field(addr) {
            None => PortVerdict::Abort,
            Some(p) => match parse_u16_spec(p) {
                None => PortVerdict::Abort,
                Some(port) => PortVerdict::Found(first_field(addr), port),
            },
        }
    }
}

/// The verdict on the words of one line: only attached devices count.
pub open spec fn words_debug_port(w: Seq<Seq<char>>, ip: Seq<char>) -> PortVerdict {
    if !(w.len() >= 2 && w[1] == "device"@) {
        PortVerdict::Skip
    } else {
        addr_debug_port(w[0], ip)
    }
}

/// The verdict on one line of `adb devices -l`.
pub open spec fn line_debug_port(line: Seq<char>, ip: Seq<char>) -> PortVerdict {
    words_debug_port(words(line), ip)
}

/// The views of a sequence of character vectors.
pub open spec fn char_views(w: Seq<Vec<char>>) -> Seq<Seq<char>> {
    Seq::new(w.len(), |k: int| w[k]@)
}

/// The first verdict that is not `Skip` among `ls`.
pub open spec fn debug_port_in(ls: Seq<Seq<char>>, ip: Seq<char>) -> Option<(Seq<char>, u16)>
    decreases ls.len(),
{
    if ls.len() == 0 {
        None
    } else {
        match line_debug_port(ls[0], ip) {
            PortVerdict::Skip => debug_port_in(ls.drop_first(), ip),
            PortVerdict::Abort => None,
            PortVerdict::Found(a, p) => Some((a, p)),
        }
    }
}

/// The phone's address and debugging port as `adb devices -l` lists them,
/// reading the lines after the heading.
pub open spec fn find_debug_port_spec(stdout: Seq<char>, ip: Seq<char>) -> Option<(Seq<char>, u16)> {
    let ls = lines(stdout);
    if ls.len() == 0 {
        None
    } else {
        debug_port_in(ls.drop_first(), ip)
    }
}

proof fn lemma_colon_index_found(s: Seq<char>)
    requires
        colon_index(s) >= 0,
    ensures
        colon_index(s) < s.len(),
        s[colon_index(s)] == ':',
        forall|m: int| 0 <= m < colon_index(s) ==> s[m] != ':',
    decreases s.len(),
{
    if s.len() > 0 && s[0] != ':' {
        lemma_colon_index_found(s.drop_first());
        assert forall|m: int| 0 <= m < colon_index(s) implies s[m] != ':' by {
            if m > 0 {
                assert(s[m] == s.drop_first()[m - 1]);
            }
        }
    }
}

/// What a found entry of an attached device says of `ip`: the address is
/// `ip` followed by `':'` and a port, which reads as `port`.
pub open spec fn entry_names_ip(addr: Seq<char>, ip: Seq<char>, port: u16) -> bool {
    &&& crate::text::has_prefix(addr, ip + ":"@)
    &&& ((addr == ip + ":5555"@ && port == 5555) || parse_u16_spec(
        first_field(addr.skip(ip.len() + 1int)),
    ) == Some(port))
}

proof fn lemma_addr_verdict_names_ip(addr: Seq<char>, ip: Seq<char>)
    ensures
        addr_debug_port(addr, ip) matches PortVerdict::Found(a, p) ==> a == ip && entry_names_ip(
            addr,
            ip,
            p,
        ),
{
    reveal_strlit(":5555");
    reveal_strlit(":");
    if has_suffix(addr, ":5555"@) && addr.take(addr.len() - 5) == ip {
        assert(addr =~= ip + ":5555"@) by {
            assert(addr =~= addr.take(addr.len() - 5) + addr.skip(addr.len() - 5));
        }
        assert(addr.take(ip.len() + 1int) =~= ip + ":"@);
    } else if first_field(addr) == ip {
        if colon_index(addr) >= 0 {
            let ci = colon_index(addr);
            lemma_colon_index_found(addr);
            assert(addr.take(ci).len() == ip.len());
            assert(addr.take(ip.len() + 1int) =~= ip + ":"@);
        }
    }
}

proof fn lemma_debug_port_in_names_ip(ls: Seq<Seq<char>>, ip: Seq<char>)
    ensures
        debug_port_in(ls, ip) matches Some((a, p)) ==> a == ip && exists|k: int|
            0 <= k < ls.len() && {
                let w = words(#[trigger] ls[k]);
                &&& w.len() >= 2
                &&& w[1] == "device"@
                &&& entry_names_ip(w[0], ip, p)
            },
    decreases ls.len(),
{
    if ls.len() > 0 {
        lemma_debug_port_in_names_ip(ls.drop_first(), ip);
        let w = words(ls[0]);
        if w.len() >= 2 && w[1] == "device"@ {
            lemma_addr_verdict_names_ip(w[0], ip);
        }
        if debug_port_in(ls, ip) is Some {
            if line_debug_port(ls[0], ip) is Skip {
                let (a, p) = debug_port_in(ls, ip).unwrap();
                let k = choose|k: int|
                    0 <= k < ls.drop_first().len() && {
                        let w = words(#[trigger] ls.drop_first()[k]);
                        &&& w.len() >= 2
                        &&& w[1] == "device"@
                        &&& entry_names_ip(w[0], ip, p)
                    };
                assert(ls[k + 1] == ls.drop_first()[k]);
            } else {
                assert(ls[0] == ls[0]);
            }
        }
    }
}

/// A debugging port is found only at the address asked for: the address
/// given back is `ip` itself, and an attached line of the listing (past
/// its header) names `ip` followed by `':'` and the port given back.
pub proof fn lemma_debug_port_is_at_ip(stdout: Seq<char>, ip: Seq<char>)
    ensures
        find_debug_port_spec(stdout, ip) matches Some((a, p)) ==> a == ip && exists|k: int|
            1 <= k < lines(stdout).len() && {
                let w = words(#[trigger] lines(stdout)[k]);
                &&& w.len() >= 2
                &&& w[1] == "device"@
                &&& entry_names_ip(w[0], ip, p)
            },
{
    let ls = lines(stdout);
    if ls.len() > 0 {
        lemma_debug_port_in_names_ip(ls.drop_first(), ip);
        if find_debug_port_spec(stdout, ip) is Some {
            let (a, p) = find_debug_port_spec(stdout, ip).unwrap();
            let k = choose|k: int|
                0 <= k < ls.drop_first().len() && {
                    let w = words(#[trigger] ls.drop_first()[k]);
                    &&& w.len() >= 2
                    &&& w[1] == "device"@
                    &&& entry_names_ip(w[0], ip, p)
                };
            assert(ls[k + 1] == ls.drop_first()[k]);
        }
    }
}

fn colon_position(s: &Vec<char>, from: usize) -> (r: Option<usize>)
    requires
        from <= s.len(),
    ensures
        match r {
            Some(k) => from <= k < s.len() && colon_index(s@.skip(from as int)) == k - from,
            None => colon_index(s@.skip(from as int)) < 0,
        },
{
    let mut j = from;
    while j < s.len() && s[j] != ':'
        invariant
            from <= j <= s.len(),
            forall|m: int| from <= m < j ==> s@[m] != ':',
        decreases s.len() - j,
    {
        j = j + 1;
    }
    proof {
        let t = s@.skip(from as int);
        assert forall|m: int| 0 <= m < j - from implies t[m] != ':' by {
            assert(t[m] == s@[from + m]);
        }
        if j < s.len() {
            assert(t[j - from] == ':');
        }
        lemma_colon_index_at(t, j - from);
    }
    if j < s.len() {
        Some(j)
    } else {
        None
    }
}

proof fn lemma_colon_index_at(s: Seq<char>, j: int)
    requires
        0 <= j <= s.len(),
        forall|m: int| 0 <= m < j ==> s[m] != ':',
        j < s.len() ==> s[j] == ':',
    ensures
        colon_index(s) == (if j == s.len() {
            -1
        } else {
            j
        }),
    decreases s.len(),
{
    if s.len() > 0 && j > 0 {
        assert forall|m: int| 0 <= m < j - 1 implies s.drop_first()[m] != ':' by {
            assert(s.drop_first()[m] == s[m + 1]);
        }
        lemma_colon_index_at(s.drop_first(), j - 1);
    }
}

/// The characters `s[from..to]`.
fn sub_chars(s: &Vec<char>, from: usize, to: usize) -> (r: Vec<char>)
    requires
        from <= to <= s.len(),
    ensures
        r@ == s@.subrange(from as int, to as int),
{
    let mut r: Vec<char> = Vec::new();
    let mut i = from;
    while i < to
        invariant
            from <= i <= to <= s.len(),
            r@ == s@.subrange(from as int, i as int),
        decreases to - i,
    {
        r.push(s[i]);
        i = i + 1;
    }
    r
}

fn addr_verdict(addr: &Vec<char>, ip: &Vec<char>, suffix: &Vec<char>) -> (r: (u8, Vec<char>, u16))
    requires
        suffix@ == ":5555"@,
    ensures
        match addr_debug_port(addr@, ip@) {
            PortVerdict::Skip => r.0 == 0,
            PortVerdict::Abort => r.0 == 1,
            PortVerdict::Found(a, p) => r.0 == 2 && r.1@ == a && r.2 == p,
        },
{
    proof {
        reveal_strlit(":5555");
    }
    if addr.len() >= 5 && matches_at(addr, addr.len() - 5, suffix) && addr.len() - 5 == ip.len()
        && matches_at(addr, 0, ip) {
        proof {
            assert(addr@.skip(addr@.len() - 5) == addr@.subrange(addr@.len() - 5, addr@.len() as int));
            assert(addr@.take(addr@.len() - 5) == addr@.subrange(0, ip@.len() as int));
        }
        let ipv = sub_chars(ip, 0, ip.len());
        assert(ipv@ =~= ip@);
        return (2, ipv, 5555);
    }
    proof {
        if has_suffix(addr@, ":5555"@) && addr@.take(addr@.len() - 5) == ip@ {
            assert(addr@.skip(addr@.len() - 5) == addr@.subrange(addr@.len() - 5, addr@.len() as int));
            assert(addr@.take(addr@.len() - 5) == addr@.subrange(0, ip@.len() as int));
        }
    }
    let c1 = colon_position(addr, 0);
    proof {
        assert(addr@.skip(0) == addr@);
    }
    let first = match c1 {
        Some(k) => sub_chars(addr, 0, k),
        None => sub_chars(addr, 0, addr.len()),
    };
    proof {
        assert(addr@.subrange(0, addr@.len() as int) == addr@);
        assert(first@ == first_field(addr@));
    }
    if !chars_equal(&first, ip) {
        return (0, Vec::new(), 0);
    }
    match c1 {
        None => (1, Vec::new(), 0),
        Some(k) => {
            let c2 = colon_position(addr, k + 1);
            let second = match c2 {
                Some(m) => sub_chars(addr, k + 1, m),
                None => sub_chars(addr, k + 1, addr.len()),
            };
            proof {
                let rest = addr@.skip(k + 1);
                if let Some(m) = c2 {
                    assert(rest.take(m - (k + 1)) == addr@.subrange(k + 1, m as int));
                } else {
                    assert(rest == addr@.subrange(k + 1, addr@.len() as int));
                }
                assert(second@ == first_field(rest));
            }
            match parse_u16(&second) {
                None => (1, Vec::new(), 0),
                Some(port) => (2, first, port),
            }
        },
    }
}

fn line_verdict(w: &Vec<Vec<char>>, ip: &Vec<char>, device: &Vec<char>, suffix: &Vec<char>) -> (r: (
    u8,
    Vec<char>,
    u16,
))
    requires
        device@ == "device"@,
        suffix@ == ":5555"@,
    ensures
        match words_debug_port(char_views(w@), ip@) {
            PortVerdict::Skip => r.0 == 0,
            PortVerdict::Abort => r.0 == 1,
            PortVerdict::Found(a, p) => r.0 == 2 && r.1@ == a && r.2 == p,
        },
{
    if !(w.len() >= 2 && chars_equal(&w[1], device)) {
        proof {
            if w.len() >= 2 {
                assert(w@[1]@ == char_views(w@)[1]);
            }
        }
        return (0, Vec::new(), 0);
    }
    assert(w@[0]@ == char_views(w@)[0]);
    assert(w@[1]@ == char_views(w@)[1]);
    addr_verdict(&w[0], ip, suffix)
}

/// Finds the phone at `ip` in the output of `adb devices -l`: its address
/// and debugging port.
pub fn find_debug_port(stdout: &str, ip: &str) -> (r: Option<(String, u16)>)
    ensures
        match r {
            Some((a, p)) => find_debug_port_spec(stdout@, ip@) == Some((a@, p)),
            None => find_debug_port_spec(stdout@, ip@) is None,
        },
{
    let text = chars_of(stdout);
    let ls = split_lines(&text);
    let ghost all = lines(stdout@);
    if ls.len() == 0 {
        return None;
    }
    let ipc = chars_of(ip);
    let device = chars_of("device");
    let suffix = chars_of(":5555");
    let mut i: usize = 1;
    assert(all.skip(1) == all.drop_first());
    while i < ls.len()
        invariant
            1 <= i <= ls.len(),
            ls@.len() == all.len(),
            forall|k: int| 0 <= k < ls@.len() ==> #[trigger] ls@[k]@ == all[k],
            ipc@ == ip@,
            device@ == "device"@,
            suffix@ == ":5555"@,
            debug_port_in(all.skip(i as int), ip@) == find_debug_port_spec(stdout@, ip@),
        decreases ls.len() - i,
    {
        proof {
            assert(all.skip(i as int)[0] == all[i as int]);
            assert(all.skip(i as int).drop_first() == all.skip(i + 1));
        }
        let w = split_words(&ls[i]);
        proof {
            assert(char_views(w@) =~= words(all[i as int]));
        }
        let (kind, addr, port) = line_verdict(&w, &ipc, &device, &suffix);
        if kind == 2 {
            return Some((string_of_all(&addr), port));
        } else if kind == 1 {
            return None;
        }
        i = i + 1;
    }
    proof {
        assert(all.skip(i as int).len() == 0);
    }
    None
}

/// The phone's address and debugging port after a successful manual
/// pairing: as `adb devices -l` lists it, or else `ip` and the usual port
/// 5555.
pub fn endpoint_after_pairing(ip: &str, listing: Option<&str>) -> (r: (String, u16))
    ensures
        ({
            let found = match listing {
                Some(out) => find_debug_port_spec(out@, ip@),
                None => None,
            };
            match found {
                Some((a, p)) => r.0@ == a && r.1 == p,
                None => r.0@ == ip@ && r.1 == 5555,
            }
        }),
{
    match listing {
        Some(out) => match find_debug_port(out, ip) {
            Some(found) => found,
            None => (owned(ip), 5555),
        },
        None => (owned(ip), 5555),
    }
}

// ---------------------------------------------------------------------------
// Messages
// ---------------------------------------------------------------------------
/// `s` cut to its first `max` bytes, with an ellipsis, when it is longer.
pub open spec fn truncate_spec(s: Seq<char>, max: usize) -> Seq<char> {
    if encode_utf8(s).len() > max {
        decode_utf8(encode_utf8(s).take(max as int)) + "…"@
    } else {
        s
    }
}

/// Shortens a message to at most `max` bytes and an ellipsis.  The cut must
/// fall between characters.
pub fn truncate(s: &str, max: usize) -> (r: String)
    requires
        s.spec_bytes().len() <= usize::MAX,
        s.spec_bytes().len() > max ==> is_char_boundary(s.spec_bytes(), max as int),
    ensures
        r@ == truncate_spec(s@, max),
{
    assert(s.spec_bytes() == encode_utf8(s@));
    if s.len() > max {
        let (head, _) = s.split_at(max);
        proof {
            vstd::utf8::encode_utf8_decode_utf8(head@);
            assert(head.spec_bytes() =~= encode_utf8(s@).take(max as int));
            assert(head@ == decode_utf8(encode_utf8(s@).take(max as int)));
        }
        concat_str(head, "…")
    } else {
        owned(s)
    }
}

/// The stages of QR pairing that can fail before a phone is found.
#[derive(Clone, Copy, Debug, PartialEq, Eq, Structural)]
pub enum QrPairingStage {
    /// Starting the mDNS service.
    Startup,
    /// Announcing the pairing service.
    Registration,
    /// Waiting for the phone.
    Discovery,
}

/// The text that a failed QR pairing stage reports.
pub open spec fn qr_failure_text(stage: QrPairingStage, detail: Seq<char>) -> Seq<char> {
    match stage {
        QrPairingStage::Startup => "Failed to initialize pairing service: "@ + detail,
        QrPairingStage::Registration => "mDNS registration failed: "@ + detail,
        QrPairingStage::Discovery => "Device discovery failed: "@ + detail,
    }
}

/// Words the failure of a QR pairing stage.
pub fn qr_failure_message(stage: QrPairingStage, detail: &str) -> (m: String)
    ensures
        m@ == qr_failure_text(stage, detail@),
{
    match stage {
        QrPairingStage::Startup => concat_str("Failed to initialize pairing service: ", detail),
        QrPairingStage::Registration => concat_str("mDNS registration failed: ", detail),
        QrPairingStage::Discovery => concat_str("Device discovery failed: ", detail),
    }
}

/// The message under the form when pairing failed: the reason cut to 130
/// bytes.
pub fn pairing_failed_label(reason: &str) -> (m: String)
    requires
        reason.spec_bytes().len() <= usize::MAX,
        reason.spec_bytes().len() > 130 ==> is_char_boundary(reason.spec_bytes(), 130),
    ensures
        m@ == "Pairing failed: "@ + truncate_spec(reason@, 130),
{
    let t = truncate(reason, 130);
    concat_str("Pairing failed: ", t.as_str())
}

} // verus!
