//! Conversion of file names to the FAT 8.3 form.
use vstd::prelude::*;
use crate::filesystem::{FilesystemError, FilesystemResult};

verus! {

/// Characters a FAT name may not hold.
pub open spec fn forbidden_char(c: char) -> bool {
    c == '/' || c == '\\' || c == '<' || c == '>' || c == ':' || c == '"' || c == '|' || c == '?' || c == '*'
}

/// The upper-case ASCII byte of `c`.
pub open spec fn upper_byte(c: char) -> u8 {
    if 'a' <= c && c <= 'z' {
        ((c as u32) - 32) as u8
    } else {
        (c as u32) as u8
    }
}

/// Index of a dot of `cs` (its only one in a valid name), or its length
/// when it has none.
pub open spec fn dot_index(cs: Seq<char>) -> int {
    if exists|i: int| 0 <= i < cs.len() && cs[i] == '.' {
        choose|i: int| 0 <= i < cs.len() && cs[i] == '.'
    } else {
        cs.len() as int
    }
}

/// `n` spaces.
pub open spec fn spaces(n: nat) -> Seq<u8> {
    Seq::new(n, |i: int| 0x20u8)
}

/// The part of `cs` before its dot.
pub open spec fn base_part(cs: Seq<char>) -> Seq<char> {
    cs.take(dot_index(cs))
}

/// The part of `cs` after its dot (empty without one).
pub open spec fn ext_part(cs: Seq<char>) -> Seq<char> {
    if dot_index(cs) < cs.len() {
        cs.skip(dot_index(cs) + 1)
    } else {
        Seq::empty()
    }
}

/// `s` upper-cased and padded with spaces to `n` bytes.
pub open spec fn padded_upper(s: Seq<char>, n: int) -> Seq<u8> {
    Seq::new(n as nat, |i: int| if i < s.len() { upper_byte(s[i]) } else { 0x20u8 })
}

/// Whether `cs` has an 8.3 form: one dot at most, ASCII characters none of
/// which is forbidden, a base of 1 to 8 characters (or none at all with no
/// extension) and an extension of at most 3.
pub open spec fn valid_83(cs: Seq<char>) -> bool {
    &&& forall|i: int, j: int| 0 <= i < j < cs.len() && cs[i] == '.' ==> cs[j] != '.'
    &&& forall|i: int| 0 <= i < cs.len() && cs[i] != '.' ==> (cs[i] as u32) < 128 && !forbidden_char(cs[i])
    &&& base_part(cs).len() <= 8
    &&& ext_part(cs).len() <= 3
    &&& !(base_part(cs).len() == 0 && ext_part(cs).len() > 0)
}

/// The 8.3 name `filename_to_fat_8_3` gives for the name `cs`, or why it
/// has none. (A valid name is ASCII and at most 12 characters long.)
pub open spec fn fat_83(cs: Seq<char>) -> FilesystemResult<Seq<u8>> {
    if cs.len() == 0 {
        Err(FilesystemError::FilenameTooLong)
    } else if cs == seq!['.'] {
        Ok(seq![0x2eu8] + spaces(10))
    } else if cs == seq!['.', '.'] {
        Ok(seq![0x2eu8, 0x2eu8] + spaces(9))
    } else if !valid_83(cs) {
        Err(FilesystemError::FilenameTooLong)
    } else {
        Ok(padded_upper(base_part(cs), 8) + padded_upper(ext_part(cs), 3))
    }
}

fn forbidden(c: char) -> (b: bool)
    ensures
        b == forbidden_char(c),
{
    c == '/' || c == '\\' || c == '<' || c == '>' || c == ':' || c == '"' || c == '|' || c == '?' || c == '*'
}

fn to_upper(c: char) -> (b: u8)
    requires
        (c as u32) < 128,
    ensures
        b == upper_byte(c),
{
    if 'a' <= c && c <= 'z' {
        ((c as u32) - 32) as u8
    } else {
        (c as u32) as u8
    }
}

/// The 11-byte FAT 8.3 name of `name_str`: upper-case base and extension,
/// each padded with spaces; "." and ".." keep their dots.
pub fn filename_to_fat_8_3(name_str: &str) -> (r: FilesystemResult<[u8; 11]>)
    ensures
        match fat_83(name_str@) {
            Ok(b) => r matches Ok(a) && a@ == b,
            Err(e) => r == Err::<[u8; 11], FilesystemError>(e),
        },
{
    let n = name_str.unicode_len();
    let mut chars: Vec<char> = Vec::new();
    let mut i: usize = 0;
    while i < n
        invariant
            n == name_str@.len(),
            i <= n,
            chars@ == name_str@.take(i as int),
        decreases n - i,
    {
        chars.push(name_str.get_char(i));
        i = i + 1;
        assert(chars@ =~= name_str@.take(i as int));
    }
    assert(chars@ =~= name_str@);
    fat_name_of_chars(chars.as_slice())
}

/// The 8.3 name of a name stored as bytes, each byte one character.
pub fn fat_name_of_bytes(name: &[u8]) -> (r: FilesystemResult<[u8; 11]>)
    ensures
        match fat_83(bytes_as_chars(name@)) {
            Ok(b) => r matches Ok(a) && a@ == b,
            Err(e) => r == Err::<[u8; 11], FilesystemError>(e),
        },
{
    let mut chars: Vec<char> = Vec::new();
    let mut i: usize = 0;
    while i < name.len()
        invariant
            i <= name@.len(),
            chars@ == bytes_as_chars(name@).take(i as int),
        decreases name@.len() - i,
    {
        chars.push(name[i] as char);
        i = i + 1;
        assert(chars@ =~= bytes_as_chars(name@).take(i as int));
    }
    assert(chars@ =~= bytes_as_chars(name@));
    fat_name_of_chars(chars.as_slice())
}

/// The characters of `b`, one per byte.
pub open spec fn bytes_as_chars(b: Seq<u8>) -> Seq<char> {
    b.map_values(|x: u8| x as char)
}

/// The 8.3 name of the characters `name`.
pub fn fat_name_of_chars(name: &[char]) -> (r: FilesystemResult<[u8; 11]>)
    ensures
        match fat_83(name@) {
            Ok(b) => r matches Ok(a) && a@ == b,
            Err(e) => r == Err::<[u8; 11], FilesystemError>(e),
        },
{
    let ghost cs = name@;
    let n = name.len();
    if n == 0 {
        return Err(FilesystemError::FilenameTooLong);
    }
    let mut fat_name: [u8; 11] = [0x20u8; 11];
    if n == 1 && name[0] == '.' {
        fat_name[0] = 0x2e;
        assert(cs =~= seq!['.']);
        assert(fat_name@ =~= seq![0x2eu8] + spaces(10));
        return Ok(fat_name);
    }
    if n == 2 && name[0] == '.' && name[1] == '.' {
        fat_name[0] = 0x2e;
        fat_name[1] = 0x2e;
        assert(cs =~= seq!['.', '.']);
        assert(fat_name@ =~= seq![0x2eu8, 0x2eu8] + spaces(9));
        return Ok(fat_name);
    }
    assert(cs != seq!['.']) by {
        if cs == seq!['.'] {
            assert(cs[0] == '.');
        }
    }
    assert(cs != seq!['.', '.']) by {
        if cs == seq!['.', '.'] {
            assert(cs[0] == '.' && cs[1] == '.');
        }
    }
    // Scan the characters, filling the base and then the extension.
    let mut name_len: usize = 0;
    let mut ext_len: usize = 0;
    let mut dot_at: usize = n;
    let mut i: usize = 0;
    while i < n
        invariant
            n == cs.len(),
            n > 0,
            cs == name@,
            cs != seq!['.'],
            cs != seq!['.', '.'],
            i <= n,
            dot_at == n || dot_at < i,
            dot_at < n ==> cs[dot_at as int] == '.' && forall|j: int| 0 <= j < dot_at ==> cs[j] != '.',
            dot_at == n ==> forall|j: int| 0 <= j < i ==> cs[j] != '.',
            forall|j: int, k: int| 0 <= j < k < i && cs[j] == '.' ==> cs[k] != '.',
            forall|j: int| 0 <= j < i && cs[j] != '.' ==> (#[verifier::truncate] (cs[j] as u32)) < 128 && !forbidden_char(cs[j]),
            dot_at == n ==> name_len == i && ext_len == 0,
            dot_at < n ==> name_len == dot_at && ext_len == i - dot_at - 1,
            name_len <= 8,
            ext_len <= 3,
            fat_name@.len() == 11,
            forall|j: int| 0 <= j < name_len ==> fat_name@[j] == upper_byte(cs[j]),
            forall|j: int| name_len <= j < 8 ==> fat_name@[j] == 0x20u8,
            forall|j: int| 8 <= j < 8 + ext_len ==> #[trigger] fat_name@[j] == upper_byte(cs[dot_at + 1 + (j - 8)]),
            forall|j: int| 8 + ext_len <= j < 11 ==> #[trigger] fat_name@[j] == 0x20u8,
        decreases n - i,
    {
        let c = name[i];
        if c == '.' {
            if dot_at < n {
                proof {
                    assert(!valid_83(cs)) by {
                        assert(cs[dot_at as int] == '.' && cs[i as int] == '.');
                    }
                }
                return Err(FilesystemError::FilenameTooLong);
            }
            dot_at = i;
        } else {
            if (c as u32) >= 128 || forbidden(c) {
                proof {
                    assert(!valid_83(cs)) by {
                        assert(cs[i as int] != '.');
                    }
                }
                return Err(FilesystemError::FilenameTooLong);
            }
            let upper_c = to_upper(c);
            if dot_at < n {
                if ext_len < 3 {
                    fat_name[8 + ext_len] = upper_c;
                    ext_len = ext_len + 1;
                } else {
                    proof {
                        lemma_ext_too_long(cs, dot_at as int, i as int);
                    }
                    return Err(FilesystemError::FilenameTooLong);
                }
            } else {
                if name_len < 8 {
                    fat_name[name_len] = upper_c;
                    name_len = name_len + 1;
                } else {
                    proof {
                        lemma_base_at_least(cs, i as int);
                    }
                    return Err(FilesystemError::FilenameTooLong);
                }
            }
        }
        i = i + 1;
    }
    proof {
        if dot_at < n {
            assert(cs[dot_at as int] == '.');
            let d = dot_index(cs);
            assert(cs[d] == '.');
            assert(d == dot_at);
        } else {
            assert(!(exists|j: int| 0 <= j < cs.len() && cs[j] == '.'));
            assert(dot_index(cs) == cs.len());
        }
    }
    if name_len == 0 && ext_len > 0 {
        return Err(FilesystemError::FilenameTooLong);
    }
    proof {
        assert(valid_83(cs));
        assert(fat_name@ =~= padded_upper(base_part(cs), 8) + padded_upper(ext_part(cs), 3));
    }
    Ok(fat_name)
}

/// A name with no dot among its first nine characters has no 8.3 form.
proof fn lemma_base_at_least(cs: Seq<char>, i: int)
    requires
        i == 8,
        0 <= i < cs.len(),
        forall|j: int| 0 <= j <= i ==> cs[j] != '.',
    ensures
        !valid_83(cs),
{
    if exists|j: int| 0 <= j < cs.len() && cs[j] == '.' {
        let d = dot_index(cs);
        assert(cs[d] == '.');
        assert(d > i);
        assert(base_part(cs).len() == d);
    } else {
        assert(base_part(cs).len() == cs.len());
    }
}

/// A name whose only dot up to `i` is at `d`, with four characters after
/// it, has no 8.3 form.
proof fn lemma_ext_too_long(cs: Seq<char>, d: int, i: int)
    requires
        0 <= d < i < cs.len(),
        i == d + 4,
        cs[d] == '.',
    ensures
        !valid_83(cs),
{
    if valid_83(cs) {
        let k = dot_index(cs);
        assert(cs[k] == '.');
        if k != d {
            if k < d {
                assert(cs[k] == '.' && cs[d] == '.');
            } else {
                assert(cs[d] == '.' && cs[k] == '.');
            }
        }
        assert(ext_part(cs).len() == cs.len() - d - 1);
    }
}


/// Upper-casing an ASCII character: a lower-case letter becomes its capital,
/// 32 below it, any other character keeps its code; no lower-case letter is
/// left.
pub proof fn law_upper_byte(c: char)
    requires
        (c as u32) < 128,
    ensures
        'a' <= c <= 'z' ==> upper_byte(c) as int == c as int - 32,
        !('a' <= c <= 'z') ==> upper_byte(c) as int == c as int,
        !(0x61 <= upper_byte(c) <= 0x7A),
        0x41 <= upper_byte(c) <= 0x5A <==> ('a' <= c <= 'z' || 'A' <= c <= 'Z'),
{
}

/// The 8.3 name of any name holds no lower-case ASCII letter.
pub proof fn law_fat_name_upper_case(cs: Seq<char>)
    ensures
        fat_83(cs) matches Ok(b) ==> forall|i: int| 0 <= i < b.len() ==> !(0x61 <= #[trigger] b[i] <= 0x7A),
{
    if fat_83(cs) is Ok && cs.len() > 0 && cs != seq!['.'] && cs != seq!['.', '.'] {
        let base = base_part(cs);
        let ext = ext_part(cs);
        let d = dot_index(cs);
        if exists|i: int| 0 <= i < cs.len() && cs[i] == '.' {
            let k = choose|i: int| 0 <= i < cs.len() && cs[i] == '.';
            assert(d == k);
        }
        assert forall|i: int| 0 <= i < base.len() implies (#[trigger] base[i] as u32) < 128 by {
            assert(base[i] == cs[i]);
            assert(cs[i] != '.' || cs[i] == '.');
            if cs[i] == '.' {
                assert(i < d);
            }
        }
        assert forall|i: int| 0 <= i < ext.len() implies (#[trigger] ext[i] as u32) < 128 by {
            assert(ext[i] == cs[d + 1 + i]);
            if cs[d + 1 + i] == '.' {
                assert(cs[d] == '.');
            }
        }
        let b = padded_upper(base, 8) + padded_upper(ext, 3);
        assert forall|i: int| 0 <= i < b.len() implies !(0x61 <= #[trigger] b[i] <= 0x7A) by {
            if i < 8 {
                if i < base.len() {
                    law_upper_byte(base[i]);
                }
            } else {
                if i - 8 < ext.len() {
                    law_upper_byte(ext[i - 8]);
                }
            }
        }
    } else if cs == seq!['.'] || cs == seq!['.', '.'] {
        assert forall|i: int| 0 <= i < 11 implies !(0x61 <= #[trigger] fat_83(cs)->Ok_0[i] <= 0x7A) by {
            if cs == seq!['.'] {
                assert(fat_83(cs)->Ok_0 == seq![0x2eu8] + spaces(10));
            }
        }
    }
}

} // verus!
