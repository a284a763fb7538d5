//! Normalisation of the rows of a gameplay log: field splitting, number
//! fields, entity and weapon names, and the corrections the log needs.
use vstd::prelude::*;

verus! {

/// Why a log row was refused.
#[derive(Clone, Copy, Debug, PartialEq, Eq, Structural)]
pub enum LogParseError {
    /// The row has `found` fields where `expected` were due.
    FieldCount { expected: usize, found: usize },
    /// A player row has neither 14 nor 16 fields.
    PlayerFieldCount(usize),
    /// Field `index` of the row is not a number of the expected type.
    BadNumber(usize),
    /// The log has no player row.
    NoPlayer,
}

/// A name with its `_C` class suffix removed: names longer than three
/// characters that end in `_C` lose those two characters.
pub open spec fn appendix_removed(s: Seq<char>) -> Seq<char> {
    if s.len() > 3 && s[s.len() - 2] == '_' && s[s.len() - 1] == 'C' {
        s.subrange(0, s.len() - 2)
    } else {
        s
    }
}

/// Removes the `_C` class suffix of a record name (see `appendix_removed`).
pub fn remove_appendix(source: &str) -> (r: &str)
    ensures
        r@ == appendix_removed(source@),
{
    let n = source.unicode_len();
    if n > 3 && source.get_char(n - 2) == '_' && source.get_char(n - 1) == 'C' {
        source.substring_char(0, n - 2)
    } else {
        source
    }
}

/// Whether `s` starts with the enemy prefix `ENE_`.
pub open spec fn has_enemy_prefix(s: Seq<char>) -> bool {
    s.len() >= 4 && s[0] == 'E' && s[1] == 'N' && s[2] == 'E' && s[3] == '_'
}

/// The normalised name of a non-player record and whether it names an
/// enemy: `ENE_x_C` (longer than six characters) becomes `ED_x`, other names
/// lose their `_C` suffix.
pub open spec fn record_entity_name(s: Seq<char>) -> (bool, Seq<char>) {
    if s.len() > 6 && has_enemy_prefix(s) {
        (true, "ED_"@ + s.subrange(4, s.len() - 2))
    } else {
        (false, appendix_removed(s))
    }
}

/// Normalises the name of a non-player record (see `record_entity_name`).
pub fn transform_record_entity_name(source: &str) -> (r: (bool, String))
    ensures
        r.0 == record_entity_name(source@).0,
        r.1@ == record_entity_name(source@).1,
{
    let n = source.unicode_len();
    if n > 6 && source.get_char(0) == 'E' && source.get_char(1) == 'N' && source.get_char(2) == 'E'
        && source.get_char(3) == '_' {
        let core = source.substring_char(4, n - 2);
        (true, String::from_str("ED_").concat(core))
    } else {
        (false, String::from_str(remove_appendix(source)))
    }
}

/// The fields of a player row in the sixteen-field layout: a fourteen-field
/// row (without join and leave times) gets `0` for both at positions 5 and 6.
pub open spec fn player_fields_fixed(row: Seq<Seq<char>>) -> Seq<Seq<char>> {
    if row.len() == 14 {
        row.insert(5, "0"@).insert(5, "0"@)
    } else {
        row
    }
}

/// Brings a split player row to the sixteen-field layout; rows of another
/// length are refused with their length.
pub fn fix_player_info_split_row<'a>(split_row: Vec<&'a str>) -> (r: Result<Vec<&'a str>, LogParseError>)
    ensures
        (split_row@.len() == 14 || split_row@.len() == 16) <==> r is Ok,
        r matches Ok(row) ==> row@.len() == 16 && row@.map_values(|s: &str| s@)
            == player_fields_fixed(split_row@.map_values(|s: &str| s@)),
        r matches Err(e) ==> e == LogParseError::PlayerFieldCount(split_row@.len() as usize),
{
    let mut split_row = split_row;
    let ghost orig = split_row@;
    if split_row.len() == 16 {
        Ok(split_row)
    } else if split_row.len() == 14 {
        split_row.insert(5, "0");
        split_row.insert(5, "0");
        assert(split_row@.map_values(|s: &str| s@) =~= orig.map_values(|s: &str| s@).insert(5, "0"@).insert(5, "0"@));
        Ok(split_row)
    } else {
        Err(LogParseError::PlayerFieldCount(split_row.len()))
    }
}

/// Fields joined back with the separator between them.
pub open spec fn joined(parts: Seq<Seq<char>>, sep: char) -> Seq<char>
    decreases parts.len(),
{
    if parts.len() <= 1 {
        if parts.len() == 1 { parts[0] } else { Seq::empty() }
    } else {
        joined(parts.drop_last(), sep).push(sep) + parts.last()
    }
}

/// Splits `line` at every `sep`: the fields hold no separator and, joined
/// with it, give the line back (an empty line is one empty field).
pub fn split_fields<'a>(line: &'a str, sep: char) -> (r: Vec<&'a str>)
    ensures
        r@.len() >= 1,
        forall|k: int| 0 <= k < r@.len() ==> !(#[trigger] r@[k]@).contains(sep),
        joined(r@.map_values(|s: &str| s@), sep) == line@,
{
    let n = line.unicode_len();
    let mut r: Vec<&'a str> = Vec::new();
    let mut start: usize = 0;
    let mut i: usize = 0;
    while i < n
        invariant
            n == line@.len(),
            0 <= start <= i <= n,
            forall|k: int| 0 <= k < r@.len() ==> !(#[trigger] r@[k]@).contains(sep),
            forall|k: int| start <= k < i ==> line@[k] != sep,
            joined(r@.map_values(|s: &str| s@).push(line@.subrange(start as int, i as int)), sep)
                == line@.subrange(0, i as int),
        decreases n - i,
    {
        let ghost parts = r@.map_values(|s: &str| s@);
        let c = line.get_char(i);
        if c == sep {
            let field = line.substring_char(start, i);
            assert(!field@.contains(sep)) by {
                assert forall|k: int| 0 <= k < field@.len() implies field@[k] != sep by {
                    assert(field@[k] == line@[start + k]);
                }
            }
            r.push(field);
            let ghost next = r@.map_values(|s: &str| s@);
            assert(next == parts.push(field@));
            assert(next.push(line@.subrange(i + 1, i + 1)).drop_last() == next);
            assert(line@.subrange(i + 1, i + 1) =~= Seq::<char>::empty());
            assert(line@.subrange(0, i + 1) =~= line@.subrange(0, i as int).push(sep));
            start = i + 1;
        } else {
            proof {
                let before = parts.push(line@.subrange(start as int, i as int));
                let after = parts.push(line@.subrange(start as int, i + 1));
                assert(after.drop_last() == parts);
                assert(before.drop_last() == parts);
                if parts.len() > 0 {
                    assert(line@.subrange(start as int, i + 1) =~= line@.subrange(start as int, i as int).push(c));
                    assert(line@.subrange(0, i + 1) =~= line@.subrange(0, i as int).push(c));
                } else {
                    assert(line@.subrange(0, i + 1) =~= line@.subrange(start as int, i + 1));
                }
            }
        }
        i += 1;
    }
    let last = line.substring_char(start, n);
    assert(!last@.contains(sep)) by {
        assert forall|k: int| 0 <= k < last@.len() implies last@[k] != sep by {
            assert(last@[k] == line@[start + k]);
        }
    }
    let ghost parts = r@.map_values(|s: &str| s@);
    r.push(last);
    assert(r@.map_values(|s: &str| s@) == parts.push(last@));
    assert(line@.subrange(0, n as int) == line@);
    r
}

/// `s` without its thousands separators.
pub open spec fn without_commas(s: Seq<char>) -> Seq<char>
    decreases s.len(),
{
    if s.len() == 0 {
        s
    } else if s.last() == ',' {
        without_commas(s.drop_last())
    } else {
        without_commas(s.drop_last()).push(s.last())
    }
}

/// A decimal digit.
pub open spec fn is_digit(c: char) -> bool {
    '0' <= c && c <= '9'
}

/// Value of a run of decimal digits.
pub open spec fn digits_value(s: Seq<char>) -> int
    decreases s.len(),
{
    if s.len() == 0 {
        0
    } else {
        10 * digits_value(s.drop_last()) + (s.last() as int - '0' as int)
    }
}

/// The integer an integer literal denotes: an optional sign and at least
/// one digit; `None` for any other text.
pub open spec fn integer_text_value(s: Seq<char>) -> Option<int> {
    if s.len() > 0 && (s[0] == '+' || s[0] == '-') {
        let d = s.drop_first();
        if d.len() > 0 && forall|k: int| 0 <= k < d.len() ==> is_digit(#[trigger] d[k]) {
            Some(if s[0] == '-' { -digits_value(d) } else { digits_value(d) })
        } else {
            None
        }
    } else if s.len() > 0 && forall|k: int| 0 <= k < s.len() ==> is_digit(#[trigger] s[k]) {
        Some(digits_value(s))
    } else {
        None
    }
}

/// Value of a number field in `[min, max]`: thousands separators are
/// ignored, then the text must be an integer literal within the bounds.
pub open spec fn number_field_value(field: Seq<char>, min: int, max: int) -> Option<int> {
    match integer_text_value(without_commas(field)) {
        Some(v) => if min <= v <= max { Some(v) } else { None },
        None => None,
    }
}

proof fn lemma_digits_nonneg(s: Seq<char>)
    requires
        forall|k: int| 0 <= k < s.len() ==> is_digit(#[trigger] s[k]),
    ensures
        digits_value(s) >= 0,
    decreases s.len(),
{
    if s.len() > 0 {
        lemma_digits_nonneg(s.drop_last());
    }
}

/// Upper cap on the magnitude tracked while reading digits.
const DIGIT_CAP: i128 = 18446744073709551616;

/// Reads a number field (see `number_field_value`).
pub fn parse_number_field(field: &str, min: i64, max: i64) -> (r: Option<i64>)
    ensures
        match r {
            Some(v) => number_field_value(field@, min as int, max as int) == Some(v as int),
            None => number_field_value(field@, min as int, max as int) is None,
        },
{
    let n = field.unicode_len();
    let mut text: Vec<char> = Vec::new();
    let mut i: usize = 0;
    while i < n
        invariant
            n == field@.len(),
            0 <= i <= n,
            text@ == without_commas(field@.subrange(0, i as int)),
        decreases n - i,
    {
        let c = field.get_char(i);
        assert(field@.subrange(0, i + 1).drop_last() == field@.subrange(0, i as int));
        if c != ',' {
            text.push(c);
        }
        i += 1;
    }
    assert(field@.subrange(0, n as int) == field@);
    let ghost t = text@;
    let len = text.len();
    if len == 0 {
        return None;
    }
    let negative = text[0] == '-';
    let first: usize = if text[0] == '+' || text[0] == '-' { 1 } else { 0 };
    if first == len {
        assert(t.drop_first().len() == 0);
        return None;
    }
    let ghost d = t.subrange(first as int, len as int);
    let mut value: i128 = 0;
    let mut k: usize = first;
    while k < len
        invariant
            t == text@,
            len == t.len(),
            first <= k <= len,
            t == without_commas(field@),
            len > 0,
            first <= 1,
            first == 1 <==> (t[0] == '+' || t[0] == '-'),
            negative == (t[0] == '-'),
            forall|u: int| first <= u < k ==> is_digit(#[trigger] t[u]),
            0 <= value <= DIGIT_CAP,
            value == (if digits_value(t.subrange(first as int, k as int)) < DIGIT_CAP {
                digits_value(t.subrange(first as int, k as int))
            } else {
                DIGIT_CAP as int
            }),
        decreases len - k,
    {
        let c = text[k];
        if !('0' <= c && c <= '9') {
            proof {
                let bad = t.subrange(first as int, len as int);
                assert(bad[k - first] == c);
                assert(!is_digit(bad[k - first]));
                if first == 1 {
                    assert(bad =~= t.drop_first());
                    assert(!(forall|u: int| 0 <= u < bad.len() ==> is_digit(#[trigger] bad[u])));
                    assert(integer_text_value(t) is None);
                } else {
                    assert(bad =~= t);
                    assert(!(forall|u: int| 0 <= u < bad.len() ==> is_digit(#[trigger] bad[u])));
                    assert(integer_text_value(t) is None);
                }
                assert(t == without_commas(field@));
            }
            return None;
        }
        let digit = (c as u32 - '0' as u32) as i128;
        proof {
            let prev = t.subrange(first as int, k as int);
            let next = t.subrange(first as int, k + 1);
            assert(next.drop_last() == prev);
            assert forall|u: int| 0 <= u < prev.len() implies is_digit(#[trigger] prev[u]) by {
                assert(prev[u] == t[first + u]);
            }
            lemma_digits_nonneg(prev);
        }
        let grown = value * 10 + digit;
        value = if grown > DIGIT_CAP { DIGIT_CAP } else { grown };
        k += 1;
    }
    proof {
        assert forall|u: int| 0 <= u < d.len() implies is_digit(#[trigger] d[u]) by {
            assert(d[u] == t[first + u]);
        }
        lemma_digits_nonneg(d);
        if first == 1 {
            assert(d == t.drop_first());
        } else {
            assert(d =~= t);
        }
    }
    if value >= DIGIT_CAP {
        return None;
    }
    let signed: i128 = if negative { -value } else { value };
    if signed < min as i128 || signed > max as i128 {
        None
    } else {
        Some(signed as i64)
    }
}

/// A character of the Unicode White_Space property.
pub open spec fn is_white(c: char) -> bool {
    let v = c as u32;
    (0x9 <= v && v <= 0xD) || v == 0x20 || v == 0x85 || v == 0xA0 || v == 0x1680
        || (0x2000 <= v && v <= 0x200A) || v == 0x2028 || v == 0x2029 || v == 0x202F
        || v == 0x205F || v == 0x3000
}

/// `s` without its leading white space.
pub open spec fn trim_start(s: Seq<char>) -> Seq<char>
    decreases s.len(),
{
    if s.len() > 0 && is_white(s[0]) {
        trim_start(s.drop_first())
    } else {
        s
    }
}

/// `s` without its trailing white space.
pub open spec fn trim_end(s: Seq<char>) -> Seq<char>
    decreases s.len(),
{
    if s.len() > 0 && is_white(s.last()) {
        trim_end(s.drop_last())
    } else {
        s
    }
}

/// The text left when leading and trailing white space is removed.
pub open spec fn trimmed(s: Seq<char>) -> Seq<char> {
    trim_end(trim_start(s))
}

fn white_char(c: char) -> (r: bool)
    ensures
        r == is_white(c),
{
    let v = c as u32;
    (0x9 <= v && v <= 0xD) || v == 0x20 || v == 0x85 || v == 0xA0 || v == 0x1680
        || (0x2000 <= v && v <= 0x200A) || v == 0x2028 || v == 0x2029 || v == 0x202F
        || v == 0x205F || v == 0x3000
}

/// Removes leading and trailing white space (see `trimmed`).
pub fn trim_text(s: &str) -> (r: &str)
    ensures
        r@ == trimmed(s@),
{
    let n = s.unicode_len();
    let mut i: usize = 0;
    assert(s@.subrange(0, n as int) == s@);
    while i < n && white_char(s.get_char(i))
        invariant
            n == s@.len(),
            0 <= i <= n,
            trim_start(s@) == trim_start(s@.subrange(i as int, n as int)),
        decreases n - i,
    {
        assert(s@.subrange(i as int, n as int).drop_first() == s@.subrange(i + 1, n as int));
        i += 1;
    }
    let ghost t = s@.subrange(i as int, n as int);
    assert(trim_start(t) == t);
    let mut j: usize = n;
    while j > i && white_char(s.get_char(j - 1))
        invariant
            n == s@.len(),
            0 <= i <= j <= n,
            t == s@.subrange(i as int, n as int),
            trim_end(t) == trim_end(s@.subrange(i as int, j as int)),
        decreases j - i,
    {
        assert(s@.subrange(i as int, j as int).drop_last() == s@.subrange(i as int, j - 1));
        j -= 1;
    }
    proof {
        assert(s@.subrange(i as int, n as int) == t);
        let u = s@.subrange(i as int, j as int);
        if u.len() > 0 {
            assert(u.last() == s@[j - 1]);
        }
        assert(trim_end(u) == u);
    }
    s.substring_char(i, j)
}

/// Whether a log line holds nothing but white space.
pub fn is_blank_line(line: &str) -> (r: bool)
    ensures
        r == (trimmed(line@).len() == 0),
{
    trim_text(line).unicode_len() == 0
}

/// `parts` is the split of `s` at every `sep`.
pub open spec fn is_split(parts: Seq<Seq<char>>, s: Seq<char>, sep: char) -> bool {
    &&& parts.len() >= 1
    &&& forall|k: int| 0 <= k < parts.len() ==> !(#[trigger] parts[k]).contains(sep)
    &&& joined(parts, sep) == s
}

/// The `|`-separated fields of a log row, white space around the row
/// removed.
pub fn split_trimmed_row(line: &str) -> (r: Vec<&str>)
    ensures
        is_split(r@.map_values(|s: &str| s@), trimmed(line@), '|'),
{
    let fields = split_fields(trim_text(line), '|');
    let ghost parts = fields@.map_values(|s: &str| s@);
    assert forall|k: int| 0 <= k < parts.len() implies !(#[trigger] parts[k]).contains('|') by {
        assert(parts[k] == fields@[k]@);
    }
    fields
}

/// A kill row of the log.
pub struct LogKillInfo {
    pub mission_time: i16,
    pub player_name: String,
    pub killed_entity: String,
}

/// Whether a parse result is the kill row of the fields `parts`: three
/// fields, a time, a player name and a killed entity name.
pub open spec fn kill_row_of(parts: Seq<Seq<char>>, r: Result<LogKillInfo, LogParseError>) -> bool {
    if parts.len() != 3 {
        r == Err::<LogKillInfo, LogParseError>(LogParseError::FieldCount { expected: 3, found: parts.len() as usize })
    } else {
        match number_field_value(parts[0], i16::MIN as int, i16::MAX as int) {
            None => r == Err::<LogKillInfo, LogParseError>(LogParseError::BadNumber(0)),
            Some(t) => r matches Ok(k) && k.mission_time == t && k.player_name@ == parts[1]
                && k.killed_entity@ == record_entity_name(parts[2]).1,
        }
    }
}

impl LogKillInfo {
    /// Parses a kill line `time|player|entity`.
    pub fn parse_line(value: &str) -> (r: Result<LogKillInfo, LogParseError>)
        ensures
            exists|parts: Seq<Seq<char>>| is_split(parts, trimmed(value@), '|') && kill_row_of(parts, r),
    {
        let line = trim_text(value);
        let fields = split_fields(line, '|');
        let ghost parts = fields@.map_values(|s: &str| s@);
        assert(is_split(parts, trimmed(value@), '|')) by {
            assert forall|k: int| 0 <= k < parts.len() implies !(#[trigger] parts[k]).contains('|') by {
                assert(parts[k] == fields@[k]@);
            }
        }
        if fields.len() != 3 {
            let r = Err(LogParseError::FieldCount { expected: 3, found: fields.len() });
            assert(kill_row_of(parts, r));
            return r;
        }
        let r = match parse_number_field(fields[0], -32768, 32767) {
            None => Err(LogParseError::BadNumber(0)),
            Some(t) => {
                let (_, killed_entity) = transform_record_entity_name(fields[2]);
                Ok(LogKillInfo {
                    mission_time: t as i16,
                    player_name: String::from_str(fields[1]),
                    killed_entity,
                })
            },
        };
        assert(parts[0] == fields@[0]@ && parts[1] == fields@[1]@ && parts[2] == fields@[2]@);
        assert(kill_row_of(parts, r));
        r
    }
}

/// Whether a field is the flag `1`.
pub open spec fn is_flag(s: Seq<char>) -> bool {
    s.len() == 1 && s[0] == '1'
}

fn flag_set(s: &str) -> (r: bool)
    ensures
        r == is_flag(s@),
{
    s.unicode_len() == 1 && s.get_char(0) == '1'
}

/// The identity of a damage row of the log, without its amount: rows with
/// equal identities close in time are merged.
pub struct LogDamageKey {
    pub mission_time: i16,
    pub taker: String,
    pub causer: String,
    pub weapon: String,
    pub causer_type: i16,
    pub taker_type: i16,
}

/// The name of the weapon of a damage row: pickaxe variants are one weapon,
/// a missing or misspelled weapon, or one named like the causer, is
/// `Unknown`; then the `_C` suffix goes.
pub open spec fn weapon_name(record_weapon: Seq<char>, record_causer: Seq<char>) -> Seq<char> {
    let w1 = if record_weapon.len() >= 12 && record_weapon.subrange(0, 11) == "WPN_Pickaxe"@ {
        "WPN_Pickaxe_C"@
    } else {
        record_weapon
    };
    let w2 = if w1 == "Unkown"@ || w1.len() == 0 || w1 == record_causer {
        "Unknown"@
    } else {
        w1
    };
    appendix_removed(w2)
}

/// Kind of a party of a damage row from its player and enemy flags
/// (enemy wins): 0 unknown, 1 player, 2 enemy.
pub open spec fn party_kind(is_player: bool, is_enemy: bool) -> i16 {
    if is_enemy { 2 } else if is_player { 1 } else { 0 }
}

/// Name and enemy flag of a party: a player keeps the recorded name and
/// flag, anything else is renamed by `record_entity_name`, which also
/// decides whether it is an enemy.
pub open spec fn party_name(record: Seq<char>, is_player: bool, enemy_flag: bool) -> (bool, Seq<char>) {
    if is_player { (enemy_flag, record) } else { record_entity_name(record) }
}

/// Whether `key` is the identity of the damage row with nine fields `f`
/// and the given time.
pub open spec fn damage_key_of(f: Seq<Seq<char>>, time: int, key: LogDamageKey) -> bool {
    let taker = party_name(f[2], is_flag(f[6]), is_flag(f[8]));
    let causer = party_name(f[3], is_flag(f[5]), is_flag(f[7]));
    &&& key.mission_time == time
    &&& key.taker@ == taker.1
    &&& key.causer@ == causer.1
    &&& key.weapon@ == weapon_name(f[4], f[3])
    &&& key.causer_type == party_kind(is_flag(f[5]), causer.0)
    &&& key.taker_type == party_kind(is_flag(f[6]), taker.0)
}

fn party(record: &str, is_player: bool, enemy_flag: bool) -> (r: (bool, String))
    ensures
        r.0 == party_name(record@, is_player, enemy_flag).0,
        r.1@ == party_name(record@, is_player, enemy_flag).1,
{
    if is_player {
        (enemy_flag, String::from_str(record))
    } else {
        transform_record_entity_name(record)
    }
}

fn normalized_weapon(record_weapon: &str, record_causer: &str) -> (r: String)
    ensures
        r@ == weapon_name(record_weapon@, record_causer@),
{
    proof {
        reveal_strlit("WPN_Pickaxe");
        reveal_strlit("WPN_Pickaxe_C");
        reveal_strlit("Unkown");
        reveal_strlit("Unknown");
    }
    let n = record_weapon.unicode_len();
    let w1: &str = if n >= 12 && crate::text::same_text(record_weapon.substring_char(0, 11), "WPN_Pickaxe") {
        "WPN_Pickaxe_C"
    } else {
        record_weapon
    };
    let w2: &str = if crate::text::same_text(w1, "Unkown") || w1.unicode_len() == 0
        || crate::text::same_text(w1, record_causer) {
        "Unknown"
    } else {
        w1
    };
    String::from_str(remove_appendix(w2))
}

impl LogDamageKey {
    /// Identity of a split damage row `time|damage|taker|causer|weapon|
    /// causer_is_player|taker_is_player|causer_is_enemy|taker_is_enemy`;
    /// the amount (field 1) is read by the caller.
    pub fn from_fields(fields: &Vec<&str>) -> (r: Result<LogDamageKey, LogParseError>)
        ensures
            fields@.len() != 9 ==> r == Err::<LogDamageKey, LogParseError>(
                LogParseError::FieldCount { expected: 9, found: fields@.len() as usize }),
            fields@.len() == 9 ==> match number_field_value(fields@[0]@, i16::MIN as int, i16::MAX as int) {
                None => r == Err::<LogDamageKey, LogParseError>(LogParseError::BadNumber(0)),
                Some(t) => r matches Ok(key) && damage_key_of(fields@.map_values(|s: &str| s@), t, key),
            },
    {
        if fields.len() != 9 {
            return Err(LogParseError::FieldCount { expected: 9, found: fields.len() });
        }
        let time = match parse_number_field(fields[0], -32768, 32767) {
            None => { return Err(LogParseError::BadNumber(0)); },
            Some(t) => t as i16,
        };
        let causer_player = flag_set(fields[5]);
        let taker_player = flag_set(fields[6]);
        let (causer_enemy, causer) = party(fields[3], causer_player, flag_set(fields[7]));
        let (taker_enemy, taker) = party(fields[2], taker_player, flag_set(fields[8]));
        let causer_type: i16 = if causer_enemy { 2 } else if causer_player { 1 } else { 0 };
        let taker_type: i16 = if taker_enemy { 2 } else if taker_player { 1 } else { 0 };
        let weapon = normalized_weapon(fields[4], fields[3]);
        let key = LogDamageKey { mission_time: time, taker, causer, weapon, causer_type, taker_type };
        let ghost f = fields@.map_values(|s: &str| s@);
        assert(f[0] == fields@[0]@ && f[2] == fields@[2]@ && f[3] == fields@[3]@ && f[4] == fields@[4]@);
        assert(f[5] == fields@[5]@ && f[6] == fields@[6]@ && f[7] == fields@[7]@ && f[8] == fields@[8]@);
        Ok(key)
    }

    /// Whether two damage rows merge: same parties, kinds and weapon, and
    /// times less than five seconds apart.
    pub fn combine_eq(&self, other: &LogDamageKey) -> (r: bool)
        ensures
            r == combines(*self, *other),
    {
        let dt = self.mission_time as i32 - other.mission_time as i32;
        self.causer_type == other.causer_type && self.taker_type == other.taker_type
            && crate::text::same_text(self.causer.as_str(), other.causer.as_str())
            && crate::text::same_text(self.taker.as_str(), other.taker.as_str())
            && crate::text::same_text(self.weapon.as_str(), other.weapon.as_str())
            && -5 < dt && dt < 5
    }
}

/// Two damage rows merge (see `LogDamageKey::combine_eq`).
pub open spec fn combines(a: LogDamageKey, b: LogDamageKey) -> bool {
    &&& a.causer_type == b.causer_type
    &&& a.taker_type == b.taker_type
    &&& a.causer@ == b.causer@
    &&& a.taker@ == b.taker@
    &&& a.weapon@ == b.weapon@
    &&& -5 < a.mission_time - b.mission_time < 5
}

/// `runs` cuts `0..n` into consecutive ranges, each a maximal run of rows
/// that merge with the first row of the run.
pub open spec fn is_merge_runs(keys: Seq<LogDamageKey>, runs: Seq<(usize, usize)>) -> bool {
    let n = keys.len();
    &&& n == 0 ==> runs.len() == 0
    &&& n > 0 ==> runs.len() > 0 && runs[0].0 == 0 && runs.last().1 == n
    &&& forall|q: int| 0 <= q < runs.len() ==> (#[trigger] runs[q]).0 < runs[q].1
    &&& forall|q: int| 0 <= q < runs.len() - 1 ==> (#[trigger] runs[q]).1 == runs[q + 1].0
    &&& forall|q: int, t: int| 0 <= q < runs.len() && runs[q].0 <= t < runs[q].1 ==>
        combines(#[trigger] keys[t], keys[runs[q].0 as int]) && (#[trigger] runs[q]).1 <= n
    &&& forall|q: int| 0 <= q < runs.len() && (#[trigger] runs[q]).1 < n ==>
        !combines(keys[runs[q].1 as int], keys[runs[q].0 as int])
}

/// Cuts a list of damage rows into runs of rows to merge into one.
pub fn merge_runs(keys: &Vec<LogDamageKey>) -> (r: Vec<(usize, usize)>)
    ensures
        is_merge_runs(keys@, r@),
{
    let n = keys.len();
    let mut r: Vec<(usize, usize)> = Vec::new();
    if n == 0 {
        return r;
    }
    let mut start: usize = 0;
    let mut i: usize = 1;
    while i < n
        invariant
            n == keys@.len(),
            0 <= start < i <= n,
            r@.len() == 0 ==> start == 0,
            r@.len() > 0 ==> r@[0].0 == 0 && r@.last().1 == start,
            forall|q: int| 0 <= q < r@.len() ==> (#[trigger] r@[q]).0 < r@[q].1,
            forall|q: int| 0 <= q < r@.len() - 1 ==> (#[trigger] r@[q]).1 == r@[q + 1].0,
            forall|q: int, t: int| 0 <= q < r@.len() && r@[q].0 <= t < r@[q].1 ==>
                combines(#[trigger] keys@[t], keys@[r@[q].0 as int]) && (#[trigger] r@[q]).1 <= n,
            forall|q: int| 0 <= q < r@.len() && (#[trigger] r@[q]).1 < n ==>
                !combines(keys@[r@[q].1 as int], keys@[r@[q].0 as int]),
            forall|t: int| start <= t < i ==> combines(#[trigger] keys@[t], keys@[start as int]),
        decreases n - i,
    {
        if !keys[i].combine_eq(&keys[start]) {
            r.push((start, i));
            start = i;
            assert(combines(keys@[i as int], keys@[i as int]));
        }
        i += 1;
    }
    r.push((start, n));
    r
}

/// Result code of a mission: 2 when aborted, else 0 (won) when some player
/// escaped and 1 (lost) when none did.
pub fn mission_result(mission_aborted: bool, player_escaped_count: usize) -> (r: i16)
    ensures
        r == (if mission_aborted { 2i16 } else if player_escaped_count == 0 { 1i16 } else { 0i16 }),
{
    if mission_aborted {
        2
    } else if player_escaped_count == 0 {
        1
    } else {
        0
    }
}

/// Present time of a player: a recorded zero means present all along.
pub fn fix_present_time(total_present_time: i16, mission_time: i16) -> (r: i16)
    ensures
        r == crate::distribution::fixed_present_time(total_present_time as int, mission_time as int),
{
    if total_present_time == 0 {
        mission_time
    } else {
        total_present_time
    }
}

/// Earliest join time of the players of a mission, `None` with no player.
pub fn first_join_time(join_times: &Vec<i16>) -> (r: Option<i16>)
    ensures
        r is None <==> join_times@.len() == 0,
        r matches Some(m) ==> join_times@.contains(m)
            && forall|k: int| 0 <= k < join_times@.len() ==> m <= #[trigger] join_times@[k],
{
    if join_times.len() == 0 {
        return None;
    }
    let mut m = join_times[0];
    let mut k: usize = 1;
    while k < join_times.len()
        invariant
            1 <= k <= join_times@.len(),
            join_times@.contains(m),
            forall|u: int| 0 <= u < k ==> m <= #[trigger] join_times@[u],
        decreases join_times@.len() - k,
    {
        if join_times[k] < m {
            m = join_times[k];
        }
        k += 1;
    }
    Some(m)
}

/// A log time taken relative to the first join, `None` when it does not
/// fit the time type.
pub fn relative_time(time: i16, first_join: i16) -> (r: Option<i16>)
    ensures
        r is Some <==> i16::MIN <= time - first_join <= i16::MAX,
        r matches Some(t) ==> t == time - first_join,
{
    let d = time as i32 - first_join as i32;
    if d < -32768 || d > 32767 {
        None
    } else {
        Some(d as i16)
    }
}

} // verus!
