//! Records, timestamps and input validation for the per-extension
//! user-choice registry key, and the commit protocol that writes one.

use vstd::prelude::*;

use crate::text::hex_digit;
use crate::text::push_char;
use crate::text::spec_hex_digit;
use crate::text::spec_trim;

verus! {

/// A last-write timestamp as the registry reports it: two 32-bit halves of
/// a 64-bit count of 100-nanosecond ticks.
#[derive(Debug, Copy, Clone, PartialEq, Eq)]
pub struct FileTime {
    pub low_date_time: u32,
    pub high_date_time: u32,
}

impl FileTime {
    pub open spec fn spec_as_u64(self) -> u64 {
        (self.high_date_time as u64 * 0x1_0000_0000 + self.low_date_time as u64) as u64
    }

    /// The two halves joined into the 64-bit tick count.
    pub fn as_u64(self) -> (r: u64)
        ensures
            r == self.spec_as_u64(),
    {
        self.high_date_time as u64 * 0x1_0000_0000 + self.low_date_time as u64
    }
}

/// The legacy-scheme user-choice record: any of the three parts can be
/// missing from the key.
#[derive(Debug, Clone, PartialEq, Eq)]
pub struct UserChoice {
    pub prog_id: Option<String>,
    pub hash: Option<String>,
    pub last_write_time: Option<FileTime>,
}

#[derive(Debug, Clone, PartialEq, Eq)]
pub enum ReadUserChoiceError {
    InvalidExt,
    WindowsApiError { api: String, code: u32 },
}

/// One minute in FILETIME units (100-nanosecond ticks).
pub const MINUTE_100NS: u64 = 600_000_000;

/// The value of `t` truncated down to a whole minute of FILETIME ticks.
pub open spec fn spec_clamp_filetime_to_minute(t: u64) -> u64 {
    (t - (t as int % MINUTE_100NS as int)) as u64
}

/// Truncates a FILETIME value down to the nearest whole minute, matching the
/// rounding the OS applies before it validates the hash.
pub fn clamp_filetime_to_minute(filetime: u64) -> (r: u64)
    ensures
        r == spec_clamp_filetime_to_minute(filetime),
{
    filetime - (filetime % MINUTE_100NS)
}

/// Minute clamping never raises the value, lands on a whole minute, and is
/// idempotent.
pub proof fn lemma_clamp_filetime_properties(t: u64)
    ensures
        spec_clamp_filetime_to_minute(t) <= t,
        spec_clamp_filetime_to_minute(t) as int % MINUTE_100NS as int == 0,
        spec_clamp_filetime_to_minute(spec_clamp_filetime_to_minute(t))
            == spec_clamp_filetime_to_minute(t),
{
    let m = MINUTE_100NS as int;
    let c = spec_clamp_filetime_to_minute(t) as int;
    assert(c == t - t as int % m);
    assert(t as int % m == (t as int / m) * m + t as int % m - (t as int / m) * m);
    assert(c % m == 0) by {
        assert(c == (t as int / m) * m) by {
            vstd::arithmetic::div_mod::lemma_fundamental_div_mod(t as int, m);
        }
        vstd::arithmetic::div_mod::lemma_mod_multiples_basic(t as int / m, m);
    }
}

/// The sixteen hex digits of a 64-bit value, most significant nibble first.
pub open spec fn spec_hex16(v: u64) -> Seq<char> {
    Seq::new(16, |i: int| spec_hex_digit(((v >> (((15 - i) * 4) as u64)) & 0xf) as int))
}

pub open spec fn char_is_lower_hex(c: char) -> bool {
    ('0' as u32 <= c as u32 && c as u32 <= '9' as u32) || ('a' as u32 <= c as u32 && c as u32
        <= 'f' as u32)
}

/// The hex rendering is always sixteen lowercase hex characters.
pub proof fn lemma_hex16_shape(v: u64)
    ensures
        spec_hex16(v).len() == 16,
        forall|i: int| 0 <= i < 16 ==> char_is_lower_hex(#[trigger] spec_hex16(v)[i]),
{
    assert forall|i: int| 0 <= i < 16 implies char_is_lower_hex(#[trigger] spec_hex16(v)[i]) by {
        let sh = ((15 - i) * 4) as u64;
        assert((v >> sh) & 0xf < 16) by (bit_vector);
    }
}

/// Formats a FILETIME value as the sixteen lowercase hex digits that stand
/// in the hash input (`regdate_hex`).
pub fn filetime_to_regdate_hex(filetime: u64) -> (r: String)
    ensures
        r@ == spec_hex16(filetime),
{
    let mut out = String::new();
    let mut i: usize = 0;
    while i < 16
        invariant
            0 <= i <= 16,
            out@.len() == i,
            forall|k: int| 0 <= k < i ==> out@[k] == spec_hex16(filetime)[k],
        decreases 16 - i,
    {
        let sh: u64 = (15 - i as u64) * 4;
        let d = (filetime >> sh) & 0xf;
        proof {
            let v = filetime;
            assert((v >> sh) & 0xf < 16) by (bit_vector);
        }
        push_char(&mut out, hex_digit(d));
        i = i + 1;
    }
    proof {
        assert(out@ =~= spec_hex16(filetime));
    }
    out
}

/// The extension with surrounding whitespace and at most one leading dot
/// removed: the part that must be non-empty and free of separators.
pub open spec fn ext_body(s: Seq<char>) -> Seq<char> {
    let t = spec_trim(s);
    if t.len() > 0 && t[0] == '.' {
        t.drop_first()
    } else {
        t
    }
}

pub open spec fn ext_char_ok(c: char) -> bool {
    c != '\\' && c != '/' && c != '\u{0}'
}

/// Accepted extension inputs: something is left after trimming and dot
/// stripping, and no path separator or NUL occurs in it.
pub open spec fn valid_ext_input(s: Seq<char>) -> bool {
    ext_body(s).len() > 0 && (forall|k: int|
        0 <= k < ext_body(s).len() ==> ext_char_ok(#[trigger] ext_body(s)[k]))
}

/// The normalized `.ext` form of an accepted input.
pub open spec fn spec_normalized_ext(s: Seq<char>) -> Seq<char> {
    seq!['.'] + ext_body(s)
}

/// Normalizes an extension to `.ext` form: trims whitespace, strips at most
/// one leading dot, and rejects inputs that leave nothing or contain a path
/// separator or NUL.
pub fn normalize_ext(ext: &str) -> (r: Result<String, ReadUserChoiceError>)
    ensures
        match r {
            Ok(s) => valid_ext_input(ext@) && s@ == spec_normalized_ext(ext@),
            Err(e) => !valid_ext_input(ext@) && e == ReadUserChoiceError::InvalidExt,
        },
{
    let t = crate::text::trim(ext);
    let n = t.unicode_len();
    if n == 0 {
        return Err(ReadUserChoiceError::InvalidExt);
    }
    let body: &str = if t.get_char(0) == '.' {
        t.substring_char(1, n)
    } else {
        t
    };
    proof {
        assert(body@ =~= ext_body(ext@));
    }
    let m = body.unicode_len();
    if m == 0 {
        return Err(ReadUserChoiceError::InvalidExt);
    }
    let mut k: usize = 0;
    while k < m
        invariant
            0 <= k <= m == body@.len(),
            body@ == ext_body(ext@),
            forall|j: int| 0 <= j < k ==> ext_char_ok(#[trigger] body@[j]),
        decreases m - k,
    {
        let c = body.get_char(k);
        if c == '\\' || c == '/' || c == '\u{0}' {
            return Err(ReadUserChoiceError::InvalidExt);
        }
        k = k + 1;
    }
    let mut out = String::from_str(".");
    proof {
        reveal_strlit(".");
        assert(out@ =~= seq!['.']);
    }
    out.append(body);
    Ok(out)
}

/// Like `normalize_ext`, for callers of the capture and rule stores, which
/// report the failure as plain text.
pub fn normalize_ext_for_store(ext: &str) -> (r: Result<String, String>)
    ensures
        match r {
            Ok(s) => valid_ext_input(ext@) && s@ == spec_normalized_ext(ext@),
            Err(m) => !valid_ext_input(ext@) && m@ == "invalid extension"@,
        },
{
    match normalize_ext(ext) {
        Ok(s) => Ok(s),
        Err(_) => Err(String::from_str("invalid extension")),
    }
}

/// The result of a committed legacy-scheme association write.
#[derive(Debug, Clone)]
pub struct SetUserChoiceResult {
    pub ext: String,
    pub prog_id: String,
    pub regdate_hex: String,
    pub hash: String,
    pub attempts: u32,
}

#[derive(Debug, Clone, PartialEq, Eq)]
pub enum SetUserChoiceError {
    InvalidExt,
    UserChoiceLatestEnabled { hash_version: u32 },
    ProgIdEmpty,
    WindowsApiError { api: String, code: u32 },
}

/// The bound on delete/recreate/write/verify rounds before the commit
/// protocol reports the timestamp as unstable.
pub const MAX_COMMIT_ATTEMPTS: u32 = 5;

/// The values of one prepared write: the hash is bound to the clamped
/// timestamp read just after the key was recreated.
#[derive(Debug, Clone)]
pub struct PendingWrite {
    pub ft1_clamped: u64,
    pub regdate_hex: String,
    pub hash: String,
}

/// One commit of a legacy-scheme association, driven from outside: the
/// caller deletes and recreates the key, hands in the fresh timestamp,
/// writes the returned values, and hands in the timestamp seen afterwards.
#[derive(Debug, Clone)]
pub struct CommitSession {
    pub ext: String,
    pub prog_id: String,
    pub sid: String,
    pub attempt: u32,
    pub pending: Option<PendingWrite>,
}

/// The outcome of one write round.
#[derive(Debug, Clone)]
pub enum CommitOutcome {
    Accepted(SetUserChoiceResult),
    Retry,
    Exhausted,
}

impl CommitSession {
    pub open spec fn regdate_hex_of(self, ft1: u64) -> Seq<char> {
        spec_hex16(spec_clamp_filetime_to_minute(ft1))
    }

    pub open spec fn hash_of(self, ft1: u64) -> Seq<char> {
        crate::hash::spec_user_choice_hash(
            self.ext@,
            self.sid@,
            self.prog_id@,
            self.regdate_hex_of(ft1),
            crate::hash::USER_EXPERIENCE@,
        )
    }

    /// Starts a commit: validates the extension and ProgId and refuses to
    /// proceed while the newer scheme is authoritative (nonzero flag).
    pub fn begin(ext: &str, prog_id: &str, sid: String, hash_version: Option<u32>) -> (r: Result<
        CommitSession,
        SetUserChoiceError,
    >)
        ensures
            match r {
                Ok(s) => valid_ext_input(ext@) && spec_trim(prog_id@).len() > 0 && (hash_version
                    is None || hash_version == Some(0u32)) && s.ext@ == spec_normalized_ext(ext@)
                    && s.prog_id@ == spec_trim(prog_id@) && s.sid == sid && s.attempt == 1
                    && s.pending is None,
                Err(e) => match e {
                    SetUserChoiceError::InvalidExt => !valid_ext_input(ext@),
                    SetUserChoiceError::ProgIdEmpty => valid_ext_input(ext@) && spec_trim(
                        prog_id@,
                    ).len() == 0,
                    SetUserChoiceError::UserChoiceLatestEnabled { hash_version: hv } =>
                        valid_ext_input(ext@) && spec_trim(prog_id@).len() > 0 && hash_version
                        == Some(hv) && hv != 0,
                    _ => false,
                },
            },
    {
        let ext = match normalize_ext(ext) {
            Ok(e) => e,
            Err(_) => {
                return Err(SetUserChoiceError::InvalidExt);
            },
        };
        let prog_id = match crate::text::non_empty(prog_id) {
            Some(p) => p,
            None => {
                return Err(SetUserChoiceError::ProgIdEmpty);
            },
        };
        if let Some(hv) = hash_version {
            if hv != 0 {
                return Err(SetUserChoiceError::UserChoiceLatestEnabled { hash_version: hv });
            }
        }
        Ok(CommitSession {
            ext,
            prog_id: String::from_str(prog_id),
            sid,
            attempt: 1,
            pending: None,
        })
    }

    /// Takes the timestamp of the freshly recreated key, derives the hash
    /// from its clamped value, and returns the two string values to write.
    pub fn on_key_timestamp(&mut self, ft1: u64) -> (r: (String, String))
        requires
            old(self).pending is None,
        ensures
            r.0@ == old(self).prog_id@,
            r.1@ == old(self).hash_of(ft1),
            final(self).ext == old(self).ext,
            final(self).prog_id == old(self).prog_id,
            final(self).sid == old(self).sid,
            final(self).attempt == old(self).attempt,
            match final(self).pending {
                Some(pw) => pw.ft1_clamped == spec_clamp_filetime_to_minute(ft1)
                    && pw.regdate_hex@ == old(self).regdate_hex_of(ft1) && pw.hash@ == old(
                    self,
                ).hash_of(ft1),
                None => false,
            },
    {
        let clamped = clamp_filetime_to_minute(ft1);
        let regdate_hex = filetime_to_regdate_hex(clamped);
        let hash = crate::hash::compute_user_choice_hash(
            self.ext.as_str(),
            self.sid.as_str(),
            self.prog_id.as_str(),
            regdate_hex.as_str(),
        );
        let prog_id_out = self.prog_id.clone();
        let hash_out = hash.clone();
        self.pending = Some(PendingWrite { ft1_clamped: clamped, regdate_hex, hash });
        (prog_id_out, hash_out)
    }

    /// Takes the timestamp seen after the values were written.  The write
    /// counts only if the clamped timestamp is still the one the hash was
    /// derived from; otherwise the round is retried, up to the bound.
    pub fn on_post_write_timestamp(&mut self, ft2: u64) -> (r: CommitOutcome)
        requires
            old(self).pending is Some,
            1 <= old(self).attempt <= MAX_COMMIT_ATTEMPTS,
        ensures
            final(self).ext == old(self).ext,
            final(self).prog_id == old(self).prog_id,
            final(self).sid == old(self).sid,
            final(self).pending is None,
            ({
                let pw = old(self).pending->0;
                if spec_clamp_filetime_to_minute(ft2) == pw.ft1_clamped {
                    final(self).attempt == old(self).attempt && match r {
                        CommitOutcome::Accepted(res) => res.ext == old(self).ext && res.prog_id
                            == old(self).prog_id && res.regdate_hex == pw.regdate_hex && res.hash
                            == pw.hash && res.attempts == old(self).attempt,
                        _ => false,
                    }
                } else if old(self).attempt < MAX_COMMIT_ATTEMPTS {
                    final(self).attempt == old(self).attempt + 1 && r is Retry
                } else {
                    final(self).attempt == old(self).attempt && r is Exhausted
                }
            }),
    {
        let (ft1_clamped, regdate_hex, hash) = match &self.pending {
            Some(pw) => (pw.ft1_clamped, pw.regdate_hex.clone(), pw.hash.clone()),
            None => {
                proof {
                    assert(false);
                }
                (0u64, String::new(), String::new())
            },
        };
        self.pending = None;
        let ft2_clamped = clamp_filetime_to_minute(ft2);
        if ft2_clamped == ft1_clamped {
            CommitOutcome::Accepted(SetUserChoiceResult {
                ext: self.ext.clone(),
                prog_id: self.prog_id.clone(),
                regdate_hex,
                hash,
                attempts: self.attempt,
            })
        } else if self.attempt < MAX_COMMIT_ATTEMPTS {
            self.attempt = self.attempt + 1;
            CommitOutcome::Retry
        } else {
            CommitOutcome::Exhausted
        }
    }
}

/// A timestamp pair is stable when both clamp to the same minute: the hash
/// derived from the first value is still valid after the writes.
pub open spec fn pair_stable(p: (u64, u64)) -> bool {
    spec_clamp_filetime_to_minute(p.0) == spec_clamp_filetime_to_minute(p.1)
}

/// A successful protocol run: some round below the bound saw the first
/// stable pair, and the result carries that round's number, its timestamp's
/// hex form, and the hash derived from it.
pub open spec fn commit_accepted(sess: CommitSession, ts: Seq<(u64, u64)>,
    res: SetUserChoiceResult) -> bool {
    exists|k: int|
        0 <= k < MAX_COMMIT_ATTEMPTS && pair_stable(#[trigger] ts[k]) && (forall|j: int|
            0 <= j < k ==> !pair_stable(#[trigger] ts[j])) && res.attempts == k + 1 && res.ext
            == sess.ext && res.prog_id == sess.prog_id && res.regdate_hex@ == sess.regdate_hex_of(
            ts[k].0,
        ) && res.hash@ == sess.hash_of(ts[k].0)
}

/// Runs the whole commit protocol against a sequence of timestamp
/// observations, one `(before, after)` pair per round: the protocol
/// succeeds on the first stable pair, with that round's number as the
/// attempt count, and gives up after `MAX_COMMIT_ATTEMPTS` rounds.
#[verifier::rlimit(60)]
pub fn run_commit_protocol(session: &CommitSession, timestamps: &Vec<(u64, u64)>) -> (r: Result<
    SetUserChoiceResult,
    SetUserChoiceError,
>)
    requires
        session.pending is None,
        session.attempt == 1,
        timestamps@.len() >= MAX_COMMIT_ATTEMPTS,
    ensures
        match r {
            Ok(res) => commit_accepted(*session, timestamps@, res),
            Err(e) => (forall|k: int|
                0 <= k < MAX_COMMIT_ATTEMPTS ==> !pair_stable(#[trigger] timestamps@[k])) && match e {
                SetUserChoiceError::WindowsApiError { api, code } => api@
                    == "set_user_choice(retry_exhausted)"@ && code == 0,
                _ => false,
            },
        },
{
    let ghost orig = *session;
    let mut cur = CommitSession {
        ext: session.ext.clone(),
        prog_id: session.prog_id.clone(),
        sid: session.sid.clone(),
        attempt: 1,
        pending: None,
    };
    let mut i: usize = 0;
    loop
        invariant
            orig == *session,
            cur.pending is None,
            1 <= cur.attempt <= MAX_COMMIT_ATTEMPTS,
            cur.attempt == i + 1,
            i < MAX_COMMIT_ATTEMPTS,
            cur.ext == orig.ext,
            cur.prog_id == orig.prog_id,
            cur.sid == orig.sid,
            timestamps@.len() >= MAX_COMMIT_ATTEMPTS,
            forall|j: int| 0 <= j < i ==> !pair_stable(#[trigger] timestamps@[j]),
        decreases MAX_COMMIT_ATTEMPTS - i,
    {
        let (ft1, ft2) = timestamps[i];
        let (_prog_id, _hash) = cur.on_key_timestamp(ft1);
        match cur.on_post_write_timestamp(ft2) {
            CommitOutcome::Accepted(res) => {
                proof {
                    let w = i as int;
                    assert(0 <= w < MAX_COMMIT_ATTEMPTS && pair_stable(timestamps@[w]) && (forall|
                        j: int,
                    | 0 <= j < w ==> !pair_stable(#[trigger] timestamps@[j])) && res.attempts == w
                        + 1 && res.ext == orig.ext && res.prog_id == orig.prog_id
                        && res.regdate_hex@ == orig.regdate_hex_of(timestamps@[w].0) && res.hash@
                        == orig.hash_of(timestamps@[w].0));
                    assert(commit_accepted(orig, timestamps@, res));
                }
                return Ok(res);
            },
            CommitOutcome::Retry => {
                i = i + 1;
            },
            CommitOutcome::Exhausted => {
                return Err(SetUserChoiceError::WindowsApiError {
                    api: String::from_str("set_user_choice(retry_exhausted)"),
                    code: 0,
                });
            },
        }
    }
}

impl ReadUserChoiceError {
    pub open spec fn spec_message(self) -> Seq<char> {
        match self {
            ReadUserChoiceError::InvalidExt => "invalid extension"@,
            ReadUserChoiceError::WindowsApiError { api, code } => api@ + " failed with "@
                + crate::text::spec_dec(code as int),
        }
    }

    /// The error as text.
    pub fn message(&self) -> (r: String)
        ensures
            r@ == self.spec_message(),
    {
        match self {
            ReadUserChoiceError::InvalidExt => String::from_str("invalid extension"),
            ReadUserChoiceError::WindowsApiError { api, code } => {
                let mut out = api.clone();
                out.append(" failed with ");
                let digits = crate::text::u64_to_dec(*code as u64);
                out.append(digits.as_str());
                out
            },
        }
    }
}

impl SetUserChoiceError {
    pub open spec fn spec_message(self) -> Seq<char> {
        match self {
            SetUserChoiceError::InvalidExt => "invalid extension"@,
            SetUserChoiceError::UserChoiceLatestEnabled { hash_version } =>
                "UserChoiceLatest is enabled (HashVersion="@ + crate::text::spec_dec(
                hash_version as int,
            )
                + "); legacy hash restore is not supported. Suggested workaround: install ViveTool, run `vivetool /disable /id:43229420` and `vivetool /disable /id:27623730`, then reboot."@,
            SetUserChoiceError::ProgIdEmpty => "prog_id is empty"@,
            SetUserChoiceError::WindowsApiError { api, code } => api@ + " failed with "@
                + crate::text::spec_dec(code as int),
        }
    }

    /// The error as text.
    pub fn message(&self) -> (r: String)
        ensures
            r@ == self.spec_message(),
    {
        match self {
            SetUserChoiceError::InvalidExt => String::from_str("invalid extension"),
            SetUserChoiceError::UserChoiceLatestEnabled { hash_version } => {
                let mut out = String::from_str("UserChoiceLatest is enabled (HashVersion=");
                let digits = crate::text::u64_to_dec(*hash_version as u64);
                out.append(digits.as_str());
                out.append(
                    "); legacy hash restore is not supported. Suggested workaround: install ViveTool, run `vivetool /disable /id:43229420` and `vivetool /disable /id:27623730`, then reboot.",
                );
                out
            },
            SetUserChoiceError::ProgIdEmpty => String::from_str("prog_id is empty"),
            SetUserChoiceError::WindowsApiError { api, code } => {
                let mut out = api.clone();
                out.append(" failed with ");
                let digits = crate::text::u64_to_dec(*code as u64);
                out.append(digits.as_str());
                out
            },
        }
    }
}

/// The registry path of the legacy user-choice key for a normalized
/// extension.
pub fn user_choice_subkey(ext: &str) -> (r: String)
    ensures
        r@ == "Software\\Microsoft\\Windows\\CurrentVersion\\Explorer\\FileExts\\"@ + ext@
            + "\\UserChoice"@,
{
    let mut out = String::from_str(
        "Software\\Microsoft\\Windows\\CurrentVersion\\Explorer\\FileExts\\",
    );
    out.append(ext);
    out.append("\\UserChoice");
    out
}

/// Whether `needle` occurs in `hay` as a contiguous run of characters.
pub open spec fn contains_seq(hay: Seq<char>, needle: Seq<char>) -> bool {
    exists|k: int|
        0 <= k <= hay.len() - needle.len() && #[trigger] hay.subrange(k, k + needle.len() as int)
            == needle
}

fn contains_sub(hay: &str, needle: &str) -> (r: bool)
    ensures
        r == contains_seq(hay@, needle@),
{
    let hn = hay.unicode_len();
    let nn = needle.unicode_len();
    if nn > hn {
        return false;
    }
    if nn == 0 {
        proof {
            assert(hay@.subrange(0, 0 + needle@.len() as int) =~= needle@);
        }
        return true;
    }
    let mut k: usize = 0;
    while k <= hn - nn
        invariant
            0 <= k <= hn - nn + 1,
            1 <= nn <= hn == hay@.len(),
            nn == needle@.len(),
            forall|j: int|
                0 <= j < k ==> #[trigger] hay@.subrange(j, j + needle@.len() as int) != needle@,
        decreases hn - nn - k + 1,
    {
        let piece = hay.substring_char(k, k + nn);
        if crate::text::str_eq(piece, needle) {
            proof {
                assert(hay@.subrange(k as int, k + needle@.len() as int) == needle@);
            }
            return true;
        }
        k = k + 1;
    }
    false
}

/// Picks a repair target among candidate ProgIds by a case-insensitive
/// substring hint: the first candidate whose lowercased text contains the
/// lowercased, trimmed hint.  Fails when the hint is empty, no candidates
/// are known, or nothing matches; the text of those failures is advice for
/// the operator.
pub fn pick_progid_by_hint(ext: &str, hint: &str, progids: &Vec<String>) -> (r: Result<
    String,
    String,
>)
    ensures
        ({
            let h = crate::text::spec_lower(spec_trim(hint@));
            match r {
                Ok(p) => h.len() > 0 && exists|i: int|
                    0 <= i < progids@.len() && p == progids@[i] && contains_seq(
                        crate::text::spec_lower((#[trigger] progids@[i])@),
                        h,
                    ) && (forall|j: int|
                        0 <= j < i ==> !contains_seq(
                            crate::text::spec_lower((#[trigger] progids@[j])@),
                            h,
                        )),
                Err(_) => h.len() == 0 || progids@.len() == 0 || (forall|i: int|
                    0 <= i < progids@.len() ==> !contains_seq(
                        crate::text::spec_lower((#[trigger] progids@[i])@),
                        h,
                    )),
            }
        }),
{
    let trimmed = crate::text::trim(hint);
    let hint_low = crate::text::to_ascii_lower(trimmed);
    if hint_low.as_str().unicode_len() == 0 {
        return Err(String::from_str("restore --to requires a non-empty hint"));
    }
    let n = progids.len();
    if n == 0 {
        let mut msg = String::from_str("no ProgId candidates found for ");
        msg.append(ext);
        msg.append(
            " (try setting the default app once via UI, then rerun `fag progids --ext ",
        );
        msg.append(ext);
        msg.append("`)");
        return Err(msg);
    }
    let mut i: usize = 0;
    while i < n
        invariant
            0 <= i <= n == progids@.len(),
            hint_low@ == crate::text::spec_lower(spec_trim(hint@)),
            hint_low@.len() > 0,
            forall|j: int|
                0 <= j < i ==> !contains_seq(
                    crate::text::spec_lower((#[trigger] progids@[j])@),
                    hint_low@,
                ),
        decreases n - i,
    {
        let cand_low = crate::text::to_ascii_lower(progids[i].as_str());
        if contains_sub(cand_low.as_str(), hint_low.as_str()) {
            let p = progids[i].clone();
            proof {
                let h = crate::text::spec_lower(spec_trim(hint@));
                assert(p == progids@[i as int]);
                assert(contains_seq(crate::text::spec_lower((progids@[i as int])@), h));
                assert(exists|ii: int|
                    0 <= ii < progids@.len() && p == progids@[ii] && contains_seq(
                        crate::text::spec_lower((#[trigger] progids@[ii])@),
                        h,
                    ) && (forall|j: int|
                        0 <= j < ii ==> !contains_seq(
                            crate::text::spec_lower((#[trigger] progids@[j])@),
                            h,
                        )));
            }
            return Ok(p);
        }
        i = i + 1;
    }
    let mut msg = String::from_str("no ProgId matched hint '");
    msg.append(hint_low.as_str());
    msg.append("'. Use `fag restore --ext ");
    msg.append(ext);
    msg.append(" --progid <one of: fag progids --ext ");
    msg.append(ext);
    msg.append(">`");
    Err(msg)
}

} // verus!
