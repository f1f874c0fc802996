//! Command lines of the daemon and of the socket forwarder.

use vstd::prelude::*;

use crate::text::{owned, same_text};

verus! {

/// How the daemon is called.
pub fn usage() -> (r: &'static str)
    ensures
        r@
            == "usage: ctxmuxd --socket <path> [--state-dir <path>] [--readiness-fd <fd>] [--handoff-fd <fd>]\n       ctxmuxd --version"@,
{
    "usage: ctxmuxd --socket <path> [--state-dir <path>] [--readiness-fd <fd>] [--handoff-fd <fd>]\n       ctxmuxd --version"
}

/// The value of a decimal digit.
pub open spec fn digit_value(c: char) -> Option<int> {
    if '0' <= c <= '9' {
        Some(c as int - '0' as int)
    } else {
        None
    }
}

/// The value of decimal digits.
pub open spec fn digits_value(digits: Seq<char>) -> Option<int>
    decreases digits.len(),
{
    if digits.len() == 0 {
        Some(0)
    } else {
        match (digits_value(digits.drop_last()), digit_value(digits.last())) {
            (Some(front), Some(last)) => Some(front * 10 + last),
            _ => None,
        }
    }
}

/// The number that a text writes: an optional sign and at least one decimal
/// digit, nothing else.
pub open spec fn written_number(text: Seq<char>) -> Option<int> {
    let signed = text.len() > 0 && (text[0] == '-' || text[0] == '+');
    let digits = if signed {
        text.skip(1)
    } else {
        text
    };
    if digits.len() == 0 {
        None
    } else {
        match digits_value(digits) {
            Some(value) => Some(
                if text[0] == '-' {
                    -value
                } else {
                    value
                },
            ),
            None => None,
        }
    }
}

/// The descriptor number that a text writes, where it is one that fits.
pub open spec fn written_fd(text: Seq<char>) -> Option<i32> {
    match written_number(text) {
        Some(value) => if i32::MIN <= value <= i32::MAX {
            Some(value as i32)
        } else {
            None
        },
        None => None,
    }
}

proof fn lemma_digits_grow(digits: Seq<char>, count: int)
    requires
        0 <= count <= digits.len(),
    ensures
        digits_value(digits) matches Some(value) ==> (digits_value(digits.take(count))
            matches Some(front) && 0 <= front <= value),
        digits_value(digits.take(count)) is None ==> digits_value(digits) is None,
        digits_value(digits) matches Some(value) ==> value >= 0,
    decreases digits.len(),
{
    if count < digits.len() {
        lemma_digits_grow(digits.drop_last(), count);
        assert(digits.drop_last().take(count) =~= digits.take(count));
    } else {
        assert(digits.take(count) =~= digits);
        if digits.len() > 0 {
            lemma_digits_grow(digits.drop_last(), digits.len() - 1);
        }
    }
}

/// Read a descriptor number.
pub fn parse_fd(text: &str) -> (r: Option<i32>)
    ensures
        r == written_fd(text@),
{
    let count: usize = text.unicode_len();
    if count == 0 {
        return None;
    }
    let first = text.get_char(0);
    let start: usize = if first == '-' || first == '+' {
        1
    } else {
        0
    };
    let ghost digits = if first == '-' || first == '+' {
        text@.skip(1)
    } else {
        text@
    };
    assert(digits =~= text@.skip(start as int));
    if start == count {
        assert(digits.len() == 0);
        return None;
    }
    let mut value: i64 = 0;
    let mut i: usize = start;
    assert(digits.take(0) =~= seq![]);
    while i < count
        invariant
            count == text@.len(),
            start <= i <= count,
            start < count,
            first == text@[0],
            start == (if first == '-' || first == '+' {
                1int
            } else {
                0
            }),
            digits == (if first == '-' || first == '+' {
                text@.skip(1)
            } else {
                text@
            }),
            digits == text@.skip(start as int),
            digits_value(digits.take(i - start)) == Some(value as int),
            0 <= value <= 2147483648,
        decreases count - i,
    {
        let c = text.get_char(i);
        let ghost place = i - start;
        proof {
            assert(digits[place] == c);
            assert(digits.take(place + 1).drop_last() =~= digits.take(place));
            assert(digits.take(place + 1).last() == c);
        }
        if !('0' <= c && c <= '9') {
            proof {
                lemma_digits_grow(digits, place + 1);
            }
            return None;
        }
        let digit: i64 = c as u32 as i64 - 48;
        let next: i64 = value * 10 + digit;
        if next > 2147483648 {
            proof {
                assert(digits_value(digits.take(place + 1)) == Some(next as int));
                lemma_digits_grow(digits, place + 1);
            }
            return None;
        }
        value = next;
        i = i + 1;
    }
    assert(digits.take(i - start) =~= digits);
    if first == '-' {
        Some((-value) as i32)
    } else if value > 2147483647 {
        None
    } else {
        Some(value as i32)
    }
}

/// What the daemon was asked to do. Paths are given by their places among the
/// arguments, because not every path is text.
#[derive(Debug, Clone, Copy, PartialEq, Eq, Structural)]
pub struct ServeOptions {
    pub socket: Option<usize>,
    pub state_dir: Option<usize>,
    pub qualification_stats_fd: Option<i32>,
    pub readiness_fd: Option<i32>,
    pub handoff_fd: Option<i32>,
}

/// One way to call the daemon.
#[derive(Debug, Clone, Copy, PartialEq, Eq, Structural)]
pub enum Invocation {
    Version,
    Serve(ServeOptions),
    /// The arguments make no sense.
    Usage,
}

/// No options.
pub open spec fn no_options() -> ServeOptions {
    ServeOptions {
        socket: None,
        state_dir: None,
        qualification_stats_fd: None,
        readiness_fd: None,
        handoff_fd: None,
    }
}

/// The options with one more flag and its value, which stands at `place`. A
/// flag comes at most once.
pub open spec fn with_option(
    options: ServeOptions,
    flag: Seq<char>,
    value: Seq<char>,
    place: int,
) -> Option<ServeOptions> {
    if flag == "--qualification-stats-fd"@ {
        if options.qualification_stats_fd is None && written_fd(value) is Some {
            Some(ServeOptions { qualification_stats_fd: written_fd(value), ..options })
        } else {
            None
        }
    } else if flag == "--readiness-fd"@ {
        if options.readiness_fd is None && written_fd(value) is Some {
            Some(ServeOptions { readiness_fd: written_fd(value), ..options })
        } else {
            None
        }
    } else if flag == "--handoff-fd"@ {
        if options.handoff_fd is None && written_fd(value) is Some {
            Some(ServeOptions { handoff_fd: written_fd(value), ..options })
        } else {
            None
        }
    } else if flag == "--socket"@ {
        if options.socket is None {
            Some(ServeOptions { socket: Some(place as usize), ..options })
        } else {
            None
        }
    } else if flag == "--state-dir"@ {
        if options.state_dir is None {
            Some(ServeOptions { state_dir: Some(place as usize), ..options })
        } else {
            None
        }
    } else {
        None
    }
}

/// The options that the arguments from `place` on add to `options`.
pub open spec fn options_from(
    arguments: Seq<String>,
    place: int,
    options: ServeOptions,
) -> Option<ServeOptions>
    decreases arguments.len() - place,
{
    if place >= arguments.len() {
        Some(options)
    } else if place + 1 >= arguments.len() {
        None
    } else {
        match with_option(options, arguments[place]@, arguments[place + 1]@, place + 1) {
            Some(more) => options_from(arguments, place + 2, more),
            None => None,
        }
    }
}

/// What the arguments ask for.
pub open spec fn invocation(arguments: Seq<String>) -> Invocation {
    if arguments.len() > 0 && arguments[0]@ == "--version"@ {
        if arguments.len() == 1 {
            Invocation::Version
        } else {
            Invocation::Usage
        }
    } else {
        match options_from(arguments, 0, no_options()) {
            Some(options) => if options.socket is Some {
                Invocation::Serve(options)
            } else {
                Invocation::Usage
            },
            None => Invocation::Usage,
        }
    }
}

fn is_flag(argument: &String, flag: &str) -> (r: bool)
    ensures
        r == (argument@ == flag@),
{
    let wanted = owned(flag);
    same_text(argument, &wanted)
}

fn add_option(options: ServeOptions, flag: &String, value: &String, place: usize) -> (r: Option<
    ServeOptions,
>)
    ensures
        r == with_option(options, flag@, value@, place as int),
{
    let mut options = options;
    if is_flag(flag, "--qualification-stats-fd") {
        let fd = parse_fd(value.as_str());
        if options.qualification_stats_fd.is_some() || fd.is_none() {
            return None;
        }
        options.qualification_stats_fd = fd;
    } else if is_flag(flag, "--readiness-fd") {
        let fd = parse_fd(value.as_str());
        if options.readiness_fd.is_some() || fd.is_none() {
            return None;
        }
        options.readiness_fd = fd;
    } else if is_flag(flag, "--handoff-fd") {
        let fd = parse_fd(value.as_str());
        if options.handoff_fd.is_some() || fd.is_none() {
            return None;
        }
        options.handoff_fd = fd;
    } else if is_flag(flag, "--socket") {
        if options.socket.is_some() {
            return None;
        }
        options.socket = Some(place);
    } else if is_flag(flag, "--state-dir") {
        if options.state_dir.is_some() {
            return None;
        }
        options.state_dir = Some(place);
    } else {
        return None;
    }
    Some(options)
}

/// Decide what the arguments of the daemon ask for.
pub fn parse_arguments(arguments: &Vec<String>) -> (r: Invocation)
    ensures
        r == invocation(arguments@),
{
    if arguments.len() > 0 && is_flag(&arguments[0], "--version") {
        if arguments.len() == 1 {
            return Invocation::Version;
        }
        return Invocation::Usage;
    }
    let mut options = ServeOptions {
        socket: None,
        state_dir: None,
        qualification_stats_fd: None,
        readiness_fd: None,
        handoff_fd: None,
    };
    let ghost start = no_options();
    let mut i: usize = 0;
    while i < arguments.len()
        invariant
            i <= arguments@.len(),
            start == no_options(),
            !(arguments@.len() > 0 && arguments@[0]@ == "--version"@),
            options_from(arguments@, 0, start) == options_from(arguments@, i as int, options),
        decreases arguments@.len() - i,
    {
        if arguments.len() - i < 2 {
            return Invocation::Usage;
        }
        match add_option(options, &arguments[i], &arguments[i + 1], i + 1) {
            None => {
                return Invocation::Usage;
            },
            Some(more) => {
                options = more;
            },
        }
        i = i + 2;
    }
    if options.socket.is_none() {
        return Invocation::Usage;
    }
    Invocation::Serve(options)
}

/// Whether some of the given descriptors are the same.
pub open spec fn descriptors_repeat(options: ServeOptions) -> bool {
    ||| options.qualification_stats_fd is Some && options.qualification_stats_fd
        == options.readiness_fd
    ||| options.qualification_stats_fd is Some && options.qualification_stats_fd
        == options.handoff_fd
    ||| options.readiness_fd is Some && options.readiness_fd == options.handoff_fd
}

fn same_fd(a: Option<i32>, b: Option<i32>) -> (r: bool)
    ensures
        r == (a is Some && a == b),
{
    match (a, b) {
        (Some(a), Some(b)) => a == b,
        _ => false,
    }
}

/// Check the inherited descriptors: no two are the same, so none is owned
/// twice, and a handoff needs the state that it continues.
pub fn resolve_inherited_descriptors(options: &ServeOptions) -> (r: Result<(), &'static str>)
    ensures
        if descriptors_repeat(*options) {
            r matches Err(message) && message@
                == "ctxmuxd: inherited descriptors must be distinct"@
        } else if options.handoff_fd is Some && options.state_dir is None {
            r matches Err(message) && message@ == "ctxmuxd: --handoff-fd requires --state-dir"@
        } else {
            r is Ok
        },
{
    if same_fd(options.qualification_stats_fd, options.readiness_fd) || same_fd(
        options.qualification_stats_fd,
        options.handoff_fd,
    ) || same_fd(options.readiness_fd, options.handoff_fd) {
        return Err("ctxmuxd: inherited descriptors must be distinct");
    }
    if options.handoff_fd.is_some() && options.state_dir.is_none() {
        return Err("ctxmuxd: --handoff-fd requires --state-dir");
    }
    Ok(())
}

/// A socket that is forwarded to another.
#[derive(Debug, PartialEq, Eq)]
pub struct Forward {
    pub local: String,
    pub remote: String,
}

/// Where the last colon of a text stands.
pub open spec fn is_last_colon(text: Seq<char>, place: int) -> bool {
    &&& 0 <= place < text.len()
    &&& text[place] == ':'
    &&& forall|k: int| place < k < text.len() ==> text[k] != ':'
}

/// Where the first `-L` stands.
pub open spec fn is_first_forward_flag(arguments: Seq<String>, place: int) -> bool {
    &&& 0 <= place < arguments.len()
    &&& arguments[place]@ == "-L"@
    &&& forall|k: int| 0 <= k < place ==> (#[trigger] arguments[k])@ != "-L"@
}

/// Whether `r` is the forward that a pair describes: what stands before and
/// behind its last colon, neither of them empty.
pub open spec fn splits_forward(pair: Seq<char>, r: Option<Forward>) -> bool {
    match r {
        Some(forward) => exists|place: int|
            #![trigger is_last_colon(pair, place)]
            is_last_colon(pair, place) && place > 0 && place + 1 < pair.len() && forward.local@
                == pair.take(place) && forward.remote@ == pair.skip(place + 1),
        None => forall|place: int|
            #[trigger] is_last_colon(pair, place) ==> place == 0 || place + 1 == pair.len(),
    }
}

fn split_forward(pair: &str) -> (r: Option<Forward>)
    ensures
        splits_forward(pair@, r),
{
    let count: usize = pair.unicode_len();
    let mut i: usize = count;
    while i > 0
        invariant
            count == pair@.len(),
            i <= count,
            forall|k: int| i <= k < count ==> pair@[k] != ':',
        decreases i,
    {
        i = i - 1;
        if pair.get_char(i) == ':' {
            assert(is_last_colon(pair@, i as int));
            if i == 0 || i + 1 == count {
                assert forall|place: int| #[trigger] is_last_colon(pair@, place) implies place == 0
                    || place + 1 == pair@.len() by {
                    if place < i {
                        assert(pair@[i as int] == ':');
                    }
                }
                return None;
            }
            let local = pair.substring_char(0, i).to_owned();
            let remote = pair.substring_char(i + 1, count).to_owned();
            assert(local@ =~= pair@.take(i as int));
            assert(remote@ =~= pair@.skip(i + 1));
            return Some(Forward { local, remote });
        }
    }
    None
}

/// The forward that the arguments of the forwarder describe: the pair behind
/// the first `-L`. Every other argument is ignored.
pub fn parse_forward(arguments: &Vec<String>) -> (r: Option<Forward>)
    ensures
        (forall|place: int| !is_first_forward_flag(arguments@, place)) ==> r is None,
        forall|place: int| #[trigger]
            is_first_forward_flag(arguments@, place) ==> if place + 1 < arguments@.len() {
                splits_forward(arguments@[place + 1]@, r)
            } else {
                r is None
            },
{
    let mut i: usize = 0;
    while i < arguments.len()
        invariant
            i <= arguments@.len(),
            forall|k: int| 0 <= k < i ==> (#[trigger] arguments@[k])@ != "-L"@,
        decreases arguments@.len() - i,
    {
        if is_flag(&arguments[i], "-L") {
            assert(is_first_forward_flag(arguments@, i as int));
            assert forall|place: int| #[trigger] is_first_forward_flag(
                arguments@,
                place,
            ) implies place == i by {
                if place < i {
                    assert(arguments@[place]@ != "-L"@);
                } else if place > i {
                    assert(arguments@[i as int]@ != "-L"@);
                }
            }
            if arguments.len() - i < 2 {
                return None;
            }
            return split_forward(arguments[i + 1].as_str());
        }
        i = i + 1;
    }
    None
}

/// Accepted descriptors are pairwise distinct, so no descriptor is owned or
/// closed twice.
pub proof fn law_accepted_descriptors_are_distinct(options: ServeOptions)
    requires
        !descriptors_repeat(options),
    ensures
        options.qualification_stats_fd matches Some(stats) ==> options.readiness_fd != Some(stats)
            && options.handoff_fd != Some(stats),
        options.readiness_fd matches Some(readiness) ==> options.handoff_fd != Some(readiness),
{
}

} // verus!
