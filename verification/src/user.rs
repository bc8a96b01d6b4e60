//! Session identity: parsing a version-4 UUID out of a connection's query
//! string.
//!
//! A connection authenticates by presenting `uuid=<v4-uuid>` (key and value in
//! any letter case) somewhere in its query string. Extraction scans for the
//! leftmost such pair and returns the value normalized to uppercase; a string
//! without one yields nothing and the caller must reject the connection.
use vstd::prelude::*;

verus! {

/// ASCII uppercase: the lowercase letters fold to their uppercase forms,
/// every other character is left alone.
pub open spec fn ascii_upper(c: char) -> char {
    if c == 'a' {
        'A'
    } else if c == 'b' {
        'B'
    } else if c == 'c' {
        'C'
    } else if c == 'd' {
        'D'
    } else if c == 'e' {
        'E'
    } else if c == 'f' {
        'F'
    } else if c == 'g' {
        'G'
    } else if c == 'h' {
        'H'
    } else if c == 'i' {
        'I'
    } else if c == 'j' {
        'J'
    } else if c == 'k' {
        'K'
    } else if c == 'l' {
        'L'
    } else if c == 'm' {
        'M'
    } else if c == 'n' {
        'N'
    } else if c == 'o' {
        'O'
    } else if c == 'p' {
        'P'
    } else if c == 'q' {
        'Q'
    } else if c == 'r' {
        'R'
    } else if c == 's' {
        'S'
    } else if c == 't' {
        'T'
    } else if c == 'u' {
        'U'
    } else if c == 'v' {
        'V'
    } else if c == 'w' {
        'W'
    } else if c == 'x' {
        'X'
    } else if c == 'y' {
        'Y'
    } else if c == 'z' {
        'Z'
    } else {
        c
    }
}

/// An uppercase hexadecimal digit.
pub open spec fn is_hex_up(c: char) -> bool {
    ||| c == '0'
    ||| c == '1'
    ||| c == '2'
    ||| c == '3'
    ||| c == '4'
    ||| c == '5'
    ||| c == '6'
    ||| c == '7'
    ||| c == '8'
    ||| c == '9'
    ||| c == 'A'
    ||| c == 'B'
    ||| c == 'C'
    ||| c == 'D'
    ||| c == 'E'
    ||| c == 'F'
}

/// What character `j` of a canonical uppercase version-4 UUID must be:
/// hyphens separate the 8-4-4-4-12 groups, the third group starts with `4`,
/// the fourth group starts with one of `8`, `9`, `A`, `B`, and everything
/// else is a hexadecimal digit.
pub open spec fn uuid_char_ok(c: char, j: int) -> bool {
    if j == 8 || j == 13 || j == 18 || j == 23 {
        c == '-'
    } else if j == 14 {
        c == '4'
    } else if j == 19 {
        c == '8' || c == '9' || c == 'A' || c == 'B'
    } else {
        is_hex_up(c)
    }
}

/// A canonical uppercase version-4 UUID.
pub open spec fn is_uuid_v4(s: Seq<char>) -> bool {
    s.len() == 36 && forall|j: int| 0 <= j < 36 ==> uuid_char_ok(s[j], j)
}

/// The uppercased window of `q` that would hold the UUID value of a key-value
/// pair whose key starts at `i`.
pub open spec fn uuid_at(q: Seq<char>, i: int) -> Seq<char> {
    q.subrange(i + 5, i + 41).map_values(|c: char| ascii_upper(c))
}

/// The key `uuid=` stands at `i`, in any letter case.
pub open spec fn key_at(q: Seq<char>, i: int) -> bool {
    &&& ascii_upper(q[i]) == 'U'
    &&& ascii_upper(q[i + 1]) == 'U'
    &&& ascii_upper(q[i + 2]) == 'I'
    &&& ascii_upper(q[i + 3]) == 'D'
    &&& q[i + 4] == '='
}

/// A full case-insensitive `uuid=<v4-uuid>` pair stands at `i`.
pub open spec fn found_at(q: Seq<char>, i: int) -> bool {
    &&& 0 <= i
    &&& i + 41 <= q.len()
    &&& key_at(q, i)
    &&& is_uuid_v4(uuid_at(q, i))
}

/// Identifier for participants, so that they can connect without accounts.
/// Always holds a canonical uppercase version-4 UUID.
#[derive(Eq, Hash, Debug, Clone)]
pub struct UserUuid(String);

impl View for UserUuid {
    type V = Seq<char>;

    closed spec fn view(&self) -> Seq<char> {
        self.0@
    }
}

impl PartialEq for UserUuid {
    fn eq(&self, other: &UserUuid) -> bool {
        self.0 == other.0
    }
}

impl vstd::std_specs::cmp::PartialEqSpecImpl for UserUuid {
    open spec fn obeys_eq_spec() -> bool {
        true
    }

    open spec fn eq_spec(&self, other: &UserUuid) -> bool {
        self@ == other@
    }
}

/// Fold one character to ASCII uppercase.
fn upper_char(c: char) -> (r: char)
    ensures
        r == ascii_upper(c),
{
    if c == 'a' {
        'A'
    } else if c == 'b' {
        'B'
    } else if c == 'c' {
        'C'
    } else if c == 'd' {
        'D'
    } else if c == 'e' {
        'E'
    } else if c == 'f' {
        'F'
    } else if c == 'g' {
        'G'
    } else if c == 'h' {
        'H'
    } else if c == 'i' {
        'I'
    } else if c == 'j' {
        'J'
    } else if c == 'k' {
        'K'
    } else if c == 'l' {
        'L'
    } else if c == 'm' {
        'M'
    } else if c == 'n' {
        'N'
    } else if c == 'o' {
        'O'
    } else if c == 'p' {
        'P'
    } else if c == 'q' {
        'Q'
    } else if c == 'r' {
        'R'
    } else if c == 's' {
        'S'
    } else if c == 't' {
        'T'
    } else if c == 'u' {
        'U'
    } else if c == 'v' {
        'V'
    } else if c == 'w' {
        'W'
    } else if c == 'x' {
        'X'
    } else if c == 'y' {
        'Y'
    } else if c == 'z' {
        'Z'
    } else {
        c
    }
}

/// Decide whether an already uppercased character may stand at position `j`
/// of the UUID value.
fn uuid_char_check(c: char, j: usize) -> (b: bool)
    requires
        j < 36,
    ensures
        b == uuid_char_ok(c, j as int),
{
    if j == 8 || j == 13 || j == 18 || j == 23 {
        c == '-'
    } else if j == 14 {
        c == '4'
    } else if j == 19 {
        c == '8' || c == '9' || c == 'A' || c == 'B'
    } else {
        c == '0' || c == '1' || c == '2' || c == '3' || c == '4' || c == '5' || c == '6' || c == '7'
            || c == '8' || c == '9' || c == 'A' || c == 'B' || c == 'C' || c == 'D' || c == 'E'
            || c == 'F'
    }
}

/// Decide whether a full `uuid=<v4-uuid>` pair stands at position `i` of `q`.
fn matches_at(q: &str, i: usize, len: usize) -> (b: bool)
    requires
        len == q@.len(),
        i + 41 <= len,
    ensures
        b == found_at(q@, i as int),
{
    if upper_char(q.get_char(i)) != 'U' || upper_char(q.get_char(i + 1)) != 'U' || upper_char(
        q.get_char(i + 2),
    ) != 'I' || upper_char(q.get_char(i + 3)) != 'D' || q.get_char(i + 4) != '=' {
        return false;
    }
    let mut j: usize = 0;
    while j < 36
        invariant
            len == q@.len(),
            i + 41 <= len,
            j <= 36,
            key_at(q@, i as int),
            forall|k: int| 0 <= k < j ==> uuid_char_ok(uuid_at(q@, i as int)[k], k),
        decreases 36 - j,
    {
        let c = upper_char(q.get_char(i + 5 + j));
        proof {
            assert(uuid_at(q@, i as int)[j as int] == ascii_upper(q@[i + 5 + j]));
        }
        if !uuid_char_check(c, j) {
            return false;
        }
        j = j + 1;
    }
    proof {
        assert(uuid_at(q@, i as int).len() == 36);
    }
    true
}

/// Append the ASCII uppercase form of one UUID character to `out`.
fn push_upper(out: &mut String, c: char)
    requires
        is_hex_up(ascii_upper(c)) || ascii_upper(c) == '-',
    ensures
        final(out)@ == old(out)@.push(ascii_upper(c)),
{
    let lit: &str = if c == '0' {
        proof {
            reveal_strlit("0");
        }
        "0"
    } else if c == '1' {
        proof {
            reveal_strlit("1");
        }
        "1"
    } else if c == '2' {
        proof {
            reveal_strlit("2");
        }
        "2"
    } else if c == '3' {
        proof {
            reveal_strlit("3");
        }
        "3"
    } else if c == '4' {
        proof {
            reveal_strlit("4");
        }
        "4"
    } else if c == '5' {
        proof {
            reveal_strlit("5");
        }
        "5"
    } else if c == '6' {
        proof {
            reveal_strlit("6");
        }
        "6"
    } else if c == '7' {
        proof {
            reveal_strlit("7");
        }
        "7"
    } else if c == '8' {
        proof {
            reveal_strlit("8");
        }
        "8"
    } else if c == '9' {
        proof {
            reveal_strlit("9");
        }
        "9"
    } else if c == 'a' || c == 'A' {
        proof {
            reveal_strlit("A");
        }
        "A"
    } else if c == 'b' || c == 'B' {
        proof {
            reveal_strlit("B");
        }
        "B"
    } else if c == 'c' || c == 'C' {
        proof {
            reveal_strlit("C");
        }
        "C"
    } else if c == 'd' || c == 'D' {
        proof {
            reveal_strlit("D");
        }
        "D"
    } else if c == 'e' || c == 'E' {
        proof {
            reveal_strlit("E");
        }
        "E"
    } else if c == 'f' || c == 'F' {
        proof {
            reveal_strlit("F");
        }
        "F"
    } else {
        proof {
            reveal_strlit("-");
        }
        "-"
    };
    proof {
        assert(lit@ == seq![ascii_upper(c)]);
    }
    out.append(lit);
    proof {
        assert(final(out)@ =~= old(out)@.push(ascii_upper(c)));
    }
}

/// Copy the UUID value standing at `i`, uppercased, out of `q`.
fn extract_at(q: &str, i: usize, len: usize) -> (u: String)
    requires
        len == q@.len(),
        i + 41 <= len,
        found_at(q@, i as int),
    ensures
        u@ == uuid_at(q@, i as int),
{
    let mut out = String::new();
    let mut j: usize = 0;
    while j < 36
        invariant
            len == q@.len(),
            i + 41 <= len,
            found_at(q@, i as int),
            j <= 36,
            out@ == uuid_at(q@, i as int).subrange(0, j as int),
        decreases 36 - j,
    {
        let c = q.get_char(i + 5 + j);
        proof {
            assert(uuid_at(q@, i as int)[j as int] == ascii_upper(q@[i + 5 + j]));
            assert(uuid_char_ok(uuid_at(q@, i as int)[j as int], j as int));
        }
        push_upper(&mut out, c);
        j = j + 1;
        proof {
            assert(out@ =~= uuid_at(q@, i as int).subrange(0, j as int));
        }
    }
    proof {
        assert(out@ =~= uuid_at(q@, i as int));
    }
    out
}

impl UserUuid {
    /// Login happens via `/ws?uuid=...`; this parses the `uuid=...` part.
    ///
    /// The leftmost case-insensitive `uuid=<v4-uuid>` pair decides: its value
    /// is returned normalized to uppercase. A query string holding no such
    /// pair yields nothing.
    pub fn from_query_string(query_string: &str) -> (r: Option<UserUuid>)
        ensures
            match r {
                Some(u) => exists|i: int|
                    #[trigger] found_at(query_string@, i) && (forall|j: int|
                        0 <= j < i ==> !found_at(query_string@, j)) && u@ == uuid_at(
                        query_string@,
                        i,
                    ),
                None => forall|i: int| !(#[trigger] found_at(query_string@, i)),
            },
    {
        let len = query_string.unicode_len();
        if len < 41 {
            return None;
        }
        let mut i: usize = 0;
        while i <= len - 41
            invariant
                len == query_string@.len(),
                41 <= len,
                i <= len - 40,
                forall|j: int| 0 <= j < i ==> !found_at(query_string@, j),
            decreases len - i,
        {
            if matches_at(query_string, i, len) {
                let u = extract_at(query_string, i, len);
                return Some(UserUuid(u));
            }
            i = i + 1;
        }
        None
    }

    /// The canonical uppercase text of the identifier.
    pub fn as_str(&self) -> (r: &str)
        ensures
            r@ == self@,
    {
        self.0.as_str()
    }
}

} // verus!
