//! Runtime configuration, validated from the values of its variables.

use vstd::prelude::*;

use crate::text::chars_of;

verus! {

/// An ASCII decimal digit.
pub open spec fn is_digit(c: char) -> bool {
    '0' <= c <= '9'
}

/// The value of a decimal digit.
pub open spec fn digit_value(c: char) -> int {
    c as int - '0' as int
}

/// Every character of `s` is a decimal digit.
pub open spec fn all_digits(s: Seq<char>) -> bool {
    forall|i: int| 0 <= i < s.len() ==> is_digit(#[trigger] s[i])
}

/// The value of the decimal numeral `s`, most significant digit first.
pub open spec fn digits_value(s: Seq<char>) -> int
    decreases s.len(),
{
    if s.len() == 0 {
        0
    } else {
        digits_value(s.drop_last()) * 10 + digit_value(s.last())
    }
}

/// The digits of an unsigned numeral: `s` without one leading `+`.
pub open spec fn unsigned_digits(s: Seq<char>) -> Seq<char> {
    if s.len() > 0 && s[0] == '+' {
        s.drop_first()
    } else {
        s
    }
}

/// What `usize::from_str` gives for `s`: an optional `+`, then one or more
/// decimal digits, with a value that fits in `usize`; `None` for anything else.
pub open spec fn parse_usize_spec(s: Seq<char>) -> Option<usize> {
    let d = unsigned_digits(s);
    if d.len() > 0 && all_digits(d) && digits_value(d) <= usize::MAX {
        Some(digits_value(d) as usize)
    } else {
        None
    }
}

/// The value of a numeral of digits is at least that of any of its prefixes.
proof fn lemma_prefix_value_le(s: Seq<char>, k: int)
    requires
        all_digits(s),
        0 <= k <= s.len(),
    ensures
        0 <= digits_value(s.subrange(0, k)) <= digits_value(s),
    decreases s.len() - k,
{
    if k == s.len() {
        assert(s.subrange(0, k) =~= s);
        lemma_value_nonneg(s);
    } else {
        let t = s.drop_last();
        assert(all_digits(t)) by {
            assert forall|i: int| 0 <= i < t.len() implies is_digit(#[trigger] t[i]) by {
                assert(t[i] == s[i]);
            }
        }
        lemma_prefix_value_le(t, k);
        assert(t.subrange(0, k) =~= s.subrange(0, k));
        lemma_value_nonneg(t);
        assert(is_digit(s[s.len() - 1]));
    }
}

/// A numeral of digits has a non-negative value.
proof fn lemma_value_nonneg(s: Seq<char>)
    requires
        all_digits(s),
    ensures
        digits_value(s) >= 0,
    decreases s.len(),
{
    if s.len() > 0 {
        let t = s.drop_last();
        assert(all_digits(t)) by {
            assert forall|i: int| 0 <= i < t.len() implies is_digit(#[trigger] t[i]) by {
                assert(t[i] == s[i]);
            }
        }
        lemma_value_nonneg(t);
        assert(is_digit(s[s.len() - 1]));
    }
}

/// Parse an unsigned decimal number as `usize::from_str` does.
pub fn parse_usize(s: &str) -> (r: Option<usize>)
    ensures
        r == parse_usize_spec(s@),
{
    let v = chars_of(s);
    let start: usize = if v.len() > 0 && v[0] == '+' {
        1
    } else {
        0
    };
    let ghost d = unsigned_digits(s@);
    assert(d =~= v@.subrange(start as int, v.len() as int));
    if start == v.len() {
        return None;
    }
    let mut acc: usize = 0;
    let mut i: usize = start;
    while i < v.len()
        invariant
            v@ == s@,
            start <= i <= v.len(),
            d == v@.subrange(start as int, v.len() as int),
            d == unsigned_digits(s@),
            all_digits(d.subrange(0, i - start)),
            acc == digits_value(d.subrange(0, i - start)),
        decreases v.len() - i,
    {
        let c = v[i];
        let ghost p = d.subrange(0, i - start);
        let ghost q = d.subrange(0, i + 1 - start);
        assert(q.drop_last() =~= p);
        assert(q.last() == c);
        if !('0' <= c && c <= '9') {
            assert(!all_digits(d)) by {
                assert(d[i - start] == c);
            }
            return None;
        }
        assert(all_digits(q)) by {
            assert forall|j: int| 0 <= j < q.len() implies is_digit(#[trigger] q[j]) by {
                if j < p.len() {
                    assert(q[j] == p[j]);
                }
            }
        }
        let digit = (c as u32 - '0' as u32) as usize;
        let next = match acc.checked_mul(10) {
            Some(m) => m.checked_add(digit),
            None => None,
        };
        match next {
            Some(n) => {
                acc = n;
            },
            None => {
                proof {
                    if all_digits(d) {
                        lemma_prefix_value_le(d, i + 1 - start);
                    }
                }
                return None;
            },
        }
        i = i + 1;
    }
    assert(d.subrange(0, d.len() as int) =~= d);
    Some(acc)
}

/// Why a configuration is refused.
#[derive(Debug, Clone, Copy, PartialEq, Eq, Structural)]
pub enum ConfigError {
    /// `TABLE_NAME` is not set.
    MissingTableName,
    /// `MAX_PAGE_SIZE` is not a number.
    PageSizeNotANumber,
    /// `MAX_PAGE_SIZE` is outside `1..=100`; it holds the value given.
    PageSizeOutOfRange(usize),
}

/// The decimal digit for `d` in `0..10`.
pub open spec fn digit_char(d: int) -> char {
    seq!['0', '1', '2', '3', '4', '5', '6', '7', '8', '9'][d]
}

/// The decimal numeral of `n`, without leading zeros.
pub open spec fn decimal(n: nat) -> Seq<char>
    decreases n,
{
    if n < 10 {
        seq![digit_char(n as int)]
    } else {
        decimal(n / 10) + seq![digit_char((n % 10) as int)]
    }
}

/// The text of the decimal digit `d`.
fn digit_text(d: usize) -> (s: &'static str)
    requires
        d < 10,
    ensures
        s@ == seq![digit_char(d as int)],
{
    proof {
        reveal_strlit("0");
        reveal_strlit("1");
        reveal_strlit("2");
        reveal_strlit("3");
        reveal_strlit("4");
        reveal_strlit("5");
        reveal_strlit("6");
        reveal_strlit("7");
        reveal_strlit("8");
        reveal_strlit("9");
    }
    match d {
        0 => "0",
        1 => "1",
        2 => "2",
        3 => "3",
        4 => "4",
        5 => "5",
        6 => "6",
        7 => "7",
        8 => "8",
        _ => "9",
    }
}

/// The decimal numeral of `n`.
pub fn decimal_text(n: usize) -> (s: String)
    ensures
        s@ == decimal(n as nat),
    decreases n,
{
    if n < 10 {
        String::from_str(digit_text(n))
    } else {
        let mut s = decimal_text(n / 10);
        s.append(digit_text(n % 10));
        s
    }
}

impl ConfigError {
    /// The text of this error, as it is displayed.
    pub open spec fn message(&self) -> Seq<char> {
        match self {
            ConfigError::MissingTableName => "TABLE_NAME is required"@,
            ConfigError::PageSizeNotANumber => "MAX_PAGE_SIZE must be a number"@,
            ConfigError::PageSizeOutOfRange(n) => "MAX_PAGE_SIZE must be between 1 and 100, got "@
                + decimal(*n as nat),
        }
    }

    /// The text of this error, as it is displayed.
    pub fn to_string(&self) -> (s: String)
        ensures
            s@ == self.message(),
    {
        match self {
            ConfigError::MissingTableName => String::from_str("TABLE_NAME is required"),
            ConfigError::PageSizeNotANumber => String::from_str("MAX_PAGE_SIZE must be a number"),
            ConfigError::PageSizeOutOfRange(n) => {
                let digits = decimal_text(*n);
                String::from_str("MAX_PAGE_SIZE must be between 1 and 100, got ").concat(
                    digits.as_str(),
                )
            },
        }
    }
}

/// Runtime configuration, validated eagerly at startup.
#[derive(Debug)]
pub struct AppConfig {
    table_name: String,
    aws_region: String,
    log_level: String,
    max_page_size: usize,
}

/// The view of an optional string.
pub open spec fn text_or(s: Option<String>, default: Seq<char>) -> Seq<char> {
    match s {
        Some(t) => t@,
        None => default,
    }
}

/// The region: `AWS_REGION`, else `AWS_DEFAULT_REGION`, else `ap-southeast-2`.
pub open spec fn region_spec(aws_region: Option<String>, aws_default_region: Option<String>) -> Seq<
    char,
> {
    match aws_region {
        Some(r) => r@,
        None => text_or(aws_default_region, "ap-southeast-2"@),
    }
}

/// The text of `MAX_PAGE_SIZE`, `50` when it is not set.
pub open spec fn page_size_text(max_page_size: Option<String>) -> Seq<char> {
    text_or(max_page_size, "50"@)
}

impl Clone for AppConfig {
    fn clone(&self) -> (c: Self)
        ensures
            c.spec_table_name() == self.spec_table_name(),
            c.spec_aws_region() == self.spec_aws_region(),
            c.spec_log_level() == self.spec_log_level(),
            c.spec_max_page_size() == self.spec_max_page_size(),
    {
        proof {
            use_type_invariant(self);
        }
        AppConfig {
            table_name: self.table_name.clone(),
            aws_region: self.aws_region.clone(),
            log_level: self.log_level.clone(),
            max_page_size: self.max_page_size,
        }
    }
}

impl AppConfig {
    /// The largest page size is between 1 and 100.
    #[verifier::type_invariant]
    closed spec fn page_size_in_range(self) -> bool {
        1 <= self.max_page_size <= 100
    }

    /// The table name.
    pub closed spec fn spec_table_name(&self) -> Seq<char> {
        self.table_name@
    }

    /// The region.
    pub closed spec fn spec_aws_region(&self) -> Seq<char> {
        self.aws_region@
    }

    /// The log level.
    pub closed spec fn spec_log_level(&self) -> Seq<char> {
        self.log_level@
    }

    /// The largest page size.
    pub closed spec fn spec_max_page_size(&self) -> usize {
        self.max_page_size
    }

    /// Build the configuration from the values of its variables (`None` for
    /// one that is not set): `TABLE_NAME` is required; the region comes from
    /// `AWS_REGION`, else `AWS_DEFAULT_REGION`, else `ap-southeast-2`; the log
    /// level from `LOG_LEVEL`, else `info`; `MAX_PAGE_SIZE` (default `50`) must
    /// be a number between 1 and 100.
    pub fn from_vars(
        table_name: Option<String>,
        aws_region: Option<String>,
        aws_default_region: Option<String>,
        log_level: Option<String>,
        max_page_size: Option<String>,
    ) -> (r: Result<AppConfig, ConfigError>)
        ensures
            table_name is None ==> r == Err::<AppConfig, ConfigError>(
                ConfigError::MissingTableName,
            ),
            table_name is Some ==> match parse_usize_spec(page_size_text(max_page_size)) {
                None => r == Err::<AppConfig, ConfigError>(ConfigError::PageSizeNotANumber),
                Some(n) => if n == 0 || n > 100 {
                    r == Err::<AppConfig, ConfigError>(ConfigError::PageSizeOutOfRange(n))
                } else {
                    r matches Ok(c) && c.spec_table_name() == table_name->0@
                        && c.spec_aws_region() == region_spec(aws_region, aws_default_region)
                        && c.spec_log_level() == text_or(log_level, "info"@)
                        && c.spec_max_page_size() == n
                },
            },
    {
        let table_name = match table_name {
            Some(t) => t,
            None => return Err(ConfigError::MissingTableName),
        };
        let aws_region = match aws_region {
            Some(r) => r,
            None => match aws_default_region {
                Some(r) => r,
                None => String::from_str("ap-southeast-2"),
            },
        };
        let log_level = match log_level {
            Some(l) => l,
            None => String::from_str("info"),
        };
        let page_text = match max_page_size {
            Some(p) => p,
            None => String::from_str("50"),
        };
        let max_page_size = match parse_usize(page_text.as_str()) {
            Some(n) => n,
            None => return Err(ConfigError::PageSizeNotANumber),
        };
        if max_page_size == 0 || max_page_size > 100 {
            return Err(ConfigError::PageSizeOutOfRange(max_page_size));
        }
        Ok(AppConfig { table_name, aws_region, log_level, max_page_size })
    }

    pub fn table_name(&self) -> (s: &str)
        ensures
            s@ == self.spec_table_name(),
    {
        self.table_name.as_str()
    }

    pub fn aws_region(&self) -> (s: &str)
        ensures
            s@ == self.spec_aws_region(),
    {
        self.aws_region.as_str()
    }

    pub fn log_level(&self) -> (s: &str)
        ensures
            s@ == self.spec_log_level(),
    {
        self.log_level.as_str()
    }

    /// The largest page size, always between 1 and 100.
    pub fn max_page_size(&self) -> (n: usize)
        ensures
            n == self.spec_max_page_size(),
            1 <= n <= 100,
    {
        proof {
            use_type_invariant(self);
        }
        self.max_page_size
    }
}

} // verus!
