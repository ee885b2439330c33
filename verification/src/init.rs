use vstd::prelude::*;
use vstd::string::StrSliceExecFns;

verus! {

/// The hexadecimal digit character for a value below sixteen.
pub open spec fn hex_digit_char(n: nat) -> char {
    if n == 0 {
        '0'
    } else if n == 1 {
        '1'
    } else if n == 2 {
        '2'
    } else if n == 3 {
        '3'
    } else if n == 4 {
        '4'
    } else if n == 5 {
        '5'
    } else if n == 6 {
        '6'
    } else if n == 7 {
        '7'
    } else if n == 8 {
        '8'
    } else if n == 9 {
        '9'
    } else if n == 10 {
        'a'
    } else if n == 11 {
        'b'
    } else if n == 12 {
        'c'
    } else if n == 13 {
        'd'
    } else if n == 14 {
        'e'
    } else {
        'f'
    }
}

/// What one escaped character contributes to a quoted configuration
/// string: the quote, the backslash and the named control characters
/// take their short escapes, every other control character takes a
/// four-digit hexadecimal escape, and everything else stands as it is.
pub open spec fn hjson_escaped_char(c: char) -> Seq<char> {
    if c == '"' {
        seq!['\\', '"']
    } else if c == '\\' {
        seq!['\\', '\\']
    } else if c == '\n' {
        seq!['\\', 'n']
    } else if c == '\r' {
        seq!['\\', 'r']
    } else if c == '\t' {
        seq!['\\', 't']
    } else if (c as u32) < 32 {
        seq!['\\', 'u', '0', '0', hex_digit_char((c as u32 / 16) as nat), hex_digit_char(
            (c as u32 % 16) as nat,
        )]
    } else {
        seq![c]
    }
}

/// The hexadecimal digit character of a value below sixteen.
fn hex_digit(n: u32) -> (c: char)
    requires
        n < 16,
    ensures
        c == hex_digit_char(n as nat),
{
    if n == 0 {
        '0'
    } else if n == 1 {
        '1'
    } else if n == 2 {
        '2'
    } else if n == 3 {
        '3'
    } else if n == 4 {
        '4'
    } else if n == 5 {
        '5'
    } else if n == 6 {
        '6'
    } else if n == 7 {
        '7'
    } else if n == 8 {
        '8'
    } else if n == 9 {
        '9'
    } else if n == 10 {
        'a'
    } else if n == 11 {
        'b'
    } else if n == 12 {
        'c'
    } else if n == 13 {
        'd'
    } else if n == 14 {
        'e'
    } else {
        'f'
    }
}

/// The body of a quoted configuration string.
pub open spec fn hjson_escaped(s: Seq<char>) -> Seq<char>
    decreases s.len(),
{
    if s.len() == 0 {
        Seq::empty()
    } else {
        hjson_escaped(s.drop_last()) + hjson_escaped_char(s.last())
    }
}

/// Quote a value for the configuration format: the text between double
/// quotes, with quotes, backslashes and every control character
/// escaped, so that the quoted text always reads back as it was
/// written.
pub fn escape_hjson_string(s: &str) -> (r: String)
    ensures
        r@ == seq!['"'] + hjson_escaped(s@) + seq!['"'],
{
    let len = s.unicode_len();
    let mut out = String::new();
    out.push('"');
    let mut i: usize = 0;
    while i < len
        invariant
            0 <= i <= len,
            len == s@.len(),
            out@ == seq!['"'] + hjson_escaped(s@.take(i as int)),
        decreases len - i,
    {
        let c = s.get_char(i);
        proof {
            assert(s@.take(i + 1).drop_last() =~= s@.take(i as int));
            assert(s@.take(i + 1).last() == s@[i as int]);
        }
        if c == '"' {
            out.push('\\');
            out.push('"');
        } else if c == '\\' {
            out.push('\\');
            out.push('\\');
        } else if c == '\n' {
            out.push('\\');
            out.push('n');
        } else if c == '\r' {
            out.push('\\');
            out.push('r');
        } else if c == '\t' {
            out.push('\\');
            out.push('t');
        } else if (c as u32) < 32 {
            let n = c as u32;
            out.push('\\');
            out.push('u');
            out.push('0');
            out.push('0');
            out.push(hex_digit(n / 16));
            out.push(hex_digit(n % 16));
        } else {
            out.push(c);
        }
        proof {
            assert(out@ =~= seq!['"'] + hjson_escaped(s@.take(i + 1)));
        }
        i += 1;
    }
    proof {
        assert(s@.take(len as int) =~= s@);
    }
    out.push('"');
    out
}

/// The package table of a Rust manifest, as far as project
/// initialization reads it.
#[derive(Debug, Clone)]
pub struct CargoTomlPackage {
    pub name: String,
    pub description: Option<String>,
    pub repository: Option<String>,
}

/// A Rust manifest, as far as project initialization reads it.
#[derive(Debug, Clone)]
pub struct CargoToml {
    pub package: CargoTomlPackage,
}

impl CargoToml {
    pub fn project_name(&self) -> (r: &str)
        ensures
            r@ == self.package.name@,
    {
        self.package.name.as_str()
    }

    pub fn project_description(&self) -> (r: Option<&str>)
        ensures
            match r {
                Some(s) => self.package.description matches Some(d) && d@ == s@,
                None => self.package.description is None,
            },
    {
        match &self.package.description {
            Some(d) => Some(d.as_str()),
            None => None,
        }
    }
}

/// What a fresh site's configuration is seeded with, guessed from the
/// directory the project sits in.
#[derive(Debug, Default)]
pub struct InitValues {
    pub title: Option<String>,
    pub description: Option<String>,
    pub index: Option<String>,
    pub github_repo: Option<String>,
}

} // verus!
