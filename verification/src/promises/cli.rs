//! How command lines are read, and how bytes are written as text.

use vstd::prelude::*;

use crate::base64::{decode_base64, encode_base64, encoded, symbol};
use crate::cli::{
    digits_value, is_first_forward_flag, is_last_colon, no_options, options_from, parse_arguments,
    parse_fd, parse_forward, resolve_inherited_descriptors, splits_forward, with_option, written_fd,
    Forward, Invocation, ServeOptions,
};
use crate::promises::budget::value_of_digits;
use crate::text::decimal_text;

verus! {

/// Whether a text is made of decimal digits.
pub open spec fn all_digits(text: Seq<char>) -> bool {
    text.len() > 0 && forall|i: int| 0 <= i < text.len() ==> '0' <= #[trigger] text[i] <= '9'
}

proof fn lemma_digits(text: Seq<char>)
    requires
        forall|i: int| 0 <= i < text.len() ==> '0' <= #[trigger] text[i] <= '9',
    ensures
        digits_value(text) == Some(value_of_digits(text)),
        value_of_digits(text) >= 0,
    decreases text.len(),
{
    if text.len() > 0 {
        let shorter = text.drop_last();
        assert forall|i: int| 0 <= i < shorter.len() implies '0' <= #[trigger] shorter[i]
            <= '9' by {
            assert(shorter[i] == text[i]);
        }
        lemma_digits(shorter);
        assert(text.last() == text[text.len() - 1]);
    }
}

proof fn lemma_other_text_has_no_value(text: Seq<char>, place: int)
    requires
        0 <= place < text.len(),
        !('0' <= text[place] <= '9'),
    ensures
        digits_value(text) is None,
    decreases text.len(),
{
    if place < text.len() - 1 {
        assert(text.drop_last()[place] == text[place]);
        lemma_other_text_has_no_value(text.drop_last(), place);
    }
}

/// A descriptor is read from decimal digits, with a sign or without, where it is
/// in range; any other text names none.
pub proof fn law_a_descriptor_is_read_from_its_digits(text: &str, r: Option<i32>)
    requires
        call_ensures(parse_fd, (text,), r),
    ensures
        all_digits(text@) ==> (value_of_digits(text@) <= i32::MAX ==> r == Some(
            value_of_digits(text@) as i32,
        )) && (value_of_digits(text@) > i32::MAX ==> r is None),
        text@.len() > 1 && text@[0] == '-' && all_digits(text@.skip(1)) ==> (value_of_digits(
            text@.skip(1),
        ) <= i32::MAX ==> r == Some((-value_of_digits(text@.skip(1))) as i32)),
        text@.len() > 1 && text@[0] == '+' && all_digits(text@.skip(1)) ==> (value_of_digits(
            text@.skip(1),
        ) <= i32::MAX ==> r == Some(value_of_digits(text@.skip(1)) as i32)),
        !all_digits(text@) && !(text@.len() > 1 && (text@[0] == '-' || text@[0] == '+')
            && all_digits(text@.skip(1))) ==> r is None,
{
    let whole = text@;
    if all_digits(whole) {
        lemma_digits(whole);
    }
    if whole.len() > 0 {
        let rest = whole.skip(1);
        if all_digits(rest) {
            lemma_digits(rest);
        } else if rest.len() > 0 {
            let place = choose|i: int|
                0 <= i < rest.len() && !('0' <= #[trigger] rest[i] <= '9');
            lemma_other_text_has_no_value(rest, place);
        }
        if !all_digits(whole) {
            let place = choose|i: int|
                0 <= i < whole.len() && !('0' <= #[trigger] whole[i] <= '9');
            lemma_other_text_has_no_value(whole, place);
        }
    }
}

/// A descriptor that the daemon writes for its next image is read back.
pub proof fn law_a_written_descriptor_is_read_back(
    fd: u32,
    text: String,
    shown: &str,
    r: Option<i32>,
)
    requires
        fd <= i32::MAX,
        call_ensures(decimal_text, (fd as u64,), text),
        shown@ == text@,
        call_ensures(parse_fd, (shown,), r),
    ensures
        r == Some(fd as i32),
{
    crate::promises::budget::law_a_number_is_written_in_decimal(fd as u64, text);
    law_a_descriptor_is_read_from_its_digits(shown, r);
}

/// What an option at a place of the command line does to the options so far: it
/// may be given once, and a descriptor must be one.
pub open spec fn gives(
    arguments: Seq<String>,
    place: int,
    flag: Seq<char>,
) -> bool {
    &&& 0 <= place
    &&& place + 1 < arguments.len()
    &&& place % 2 == 0
    &&& arguments[place]@ == flag
}

proof fn lemma_flags_differ()
    ensures
        "--qualification-stats-fd"@ != "--readiness-fd"@,
        "--qualification-stats-fd"@ != "--handoff-fd"@,
        "--qualification-stats-fd"@ != "--socket"@,
        "--qualification-stats-fd"@ != "--state-dir"@,
        "--readiness-fd"@ != "--handoff-fd"@,
        "--readiness-fd"@ != "--socket"@,
        "--readiness-fd"@ != "--state-dir"@,
        "--handoff-fd"@ != "--socket"@,
        "--handoff-fd"@ != "--state-dir"@,
        "--socket"@ != "--state-dir"@,
{
    reveal_strlit("--qualification-stats-fd");
    reveal_strlit("--readiness-fd");
    reveal_strlit("--handoff-fd");
    reveal_strlit("--socket");
    reveal_strlit("--state-dir");
    assert("--qualification-stats-fd"@.len() == 24);
    assert("--readiness-fd"@.len() == 14);
    assert("--handoff-fd"@.len() == 12);
    assert("--socket"@.len() == 8);
    assert("--state-dir"@.len() == 11);
}

/// Whether options say what the command line says from a place on, beside what
/// they said before.
pub open spec fn options_agree(
    arguments: Seq<String>,
    from: int,
    before: ServeOptions,
    options: ServeOptions,
) -> bool {
    &&& forall|place: int|
        from <= place && #[trigger] gives(arguments, place, "--socket"@) ==> options.socket == Some(
            (place + 1) as usize,
        )
    &&& forall|place: int|
        from <= place && #[trigger] gives(arguments, place, "--state-dir"@) ==> options.state_dir == Some(
            (place + 1) as usize,
        )
    &&& forall|place: int|
        from <= place && #[trigger] gives(arguments, place, "--readiness-fd"@) ==> options.readiness_fd
            is Some && options.readiness_fd == written_fd(arguments[place + 1]@)
    &&& forall|place: int|
        from <= place && #[trigger] gives(arguments, place, "--handoff-fd"@) ==> options.handoff_fd is Some
            && options.handoff_fd == written_fd(arguments[place + 1]@)
    &&& forall|place: int|
        from <= place && #[trigger] gives(arguments, place, "--qualification-stats-fd"@)
            ==> options.qualification_stats_fd is Some && options.qualification_stats_fd
            == written_fd(arguments[place + 1]@)
    &&& before.socket is Some ==> options.socket == before.socket
    &&& before.state_dir is Some ==> options.state_dir == before.state_dir
    &&& before.readiness_fd is Some ==> options.readiness_fd == before.readiness_fd
    &&& before.handoff_fd is Some ==> options.handoff_fd == before.handoff_fd
    &&& before.qualification_stats_fd is Some ==> options.qualification_stats_fd
        == before.qualification_stats_fd
}

/// Whether an option is there only because the command line gives it.
pub open spec fn options_are_given(
    arguments: Seq<String>,
    before: ServeOptions,
    options: ServeOptions,
) -> bool {
    &&& options.socket is Some && before.socket is None ==> exists|place: int|
        gives(arguments, place, "--socket"@)
    &&& options.state_dir is Some && before.state_dir is None ==> exists|place: int|
        gives(arguments, place, "--state-dir"@)
    &&& options.readiness_fd is Some && before.readiness_fd is None ==> exists|place: int|
        gives(arguments, place, "--readiness-fd"@)
    &&& options.handoff_fd is Some && before.handoff_fd is None ==> exists|place: int|
        gives(arguments, place, "--handoff-fd"@)
    &&& options.qualification_stats_fd is Some && before.qualification_stats_fd is None
        ==> exists|place: int| gives(arguments, place, "--qualification-stats-fd"@)
}

proof fn lemma_options_agree(arguments: Seq<String>, from: int, before: ServeOptions)
    requires
        0 <= from <= arguments.len(),
        from % 2 == 0,
        options_from(arguments, from, before) is Some,
    ensures
        options_agree(arguments, from, before, options_from(arguments, from, before)->Some_0),
        options_are_given(arguments, before, options_from(arguments, from, before)->Some_0),
        arguments.len() % 2 == 0,
    decreases arguments.len() - from,
{
    lemma_flags_differ();
    if from < arguments.len() {
        let flag = arguments[from]@;
        let more = with_option(before, flag, arguments[from + 1]@, from + 1)->Some_0;
        let options = options_from(arguments, from, before)->Some_0;
        lemma_options_agree(arguments, from + 2, more);
        assert(gives(arguments, from, flag));
        assert forall|place: int|
            from <= place && #[trigger] gives(arguments, place, "--socket"@) implies options.socket == Some(
            (place + 1) as usize,
        ) by {
            if place == from {
                assert(more.socket == Some((from + 1) as usize));
            }
        }
        assert forall|place: int|
            from <= place && #[trigger] gives(arguments, place, "--state-dir"@) implies options.state_dir
            == Some((place + 1) as usize) by {
            if place == from {
                assert(more.state_dir == Some((from + 1) as usize));
            }
        }
        assert forall|place: int|
            from <= place && #[trigger] gives(
                arguments,
                place,
                "--readiness-fd"@,
            ) implies options.readiness_fd is Some && options.readiness_fd == written_fd(
            arguments[place + 1]@,
        ) by {
            if place == from {
                assert(more.readiness_fd == written_fd(arguments[from + 1]@));
            }
        }
        assert forall|place: int|
            from <= place && #[trigger] gives(arguments, place, "--handoff-fd"@) implies options.handoff_fd
            is Some && options.handoff_fd == written_fd(arguments[place + 1]@) by {
            if place == from {
                assert(more.handoff_fd == written_fd(arguments[from + 1]@));
            }
        }
        assert forall|place: int|
            from <= place && #[trigger] gives(
                arguments,
                place,
                "--qualification-stats-fd"@,
            ) implies options.qualification_stats_fd is Some && options.qualification_stats_fd
            == written_fd(arguments[place + 1]@) by {
            if place == from {
                assert(more.qualification_stats_fd == written_fd(arguments[from + 1]@));
            }
        }
    }
}

/// The daemon serves with exactly the options that its command line gives: the
/// socket and the state directory at their places, each descriptor as it is
/// written. A socket is always given, and nothing is taken that was not.
pub proof fn law_the_daemon_serves_with_what_was_given(
    arguments: Vec<String>,
    options: ServeOptions,
    place: int,
)
    requires
        call_ensures(parse_arguments, (&arguments,), Invocation::Serve(options)),
        0 <= place,
        place + 1 < arguments@.len(),
        place % 2 == 0,
    ensures
        arguments@.len() % 2 == 0,
        options.socket is Some,
        arguments@[place]@ == "--socket"@ ==> options.socket == Some((place + 1) as usize),
        arguments@[place]@ == "--state-dir"@ ==> options.state_dir == Some((place + 1) as usize),
        arguments@[place]@ == "--readiness-fd"@ ==> options.readiness_fd is Some
            && options.readiness_fd == written_fd(arguments@[place + 1]@),
        arguments@[place]@ == "--handoff-fd"@ ==> options.handoff_fd is Some && options.handoff_fd
            == written_fd(arguments@[place + 1]@),
        options_are_given(
            arguments@,
            (ServeOptions {
                socket: None,
                state_dir: None,
                qualification_stats_fd: None,
                readiness_fd: None,
                handoff_fd: None,
            }),
            options,
        ),
{
    lemma_options_agree(arguments@, 0, no_options());
    let flag = arguments@[place]@;
    assert(gives(arguments@, place, flag));
}

/// No option may be given twice, and no other word is one.
pub proof fn law_an_option_is_given_once(
    arguments: Vec<String>,
    options: ServeOptions,
    a: int,
    b: int,
)
    requires
        call_ensures(parse_arguments, (&arguments,), Invocation::Serve(options)),
        0 <= a < b,
        b + 1 < arguments@.len(),
        a % 2 == 0,
        b % 2 == 0,
    ensures
        arguments@[a]@ != arguments@[b]@,
        arguments@[a]@ == "--socket"@ || arguments@[a]@ == "--state-dir"@ || arguments@[a]@
            == "--readiness-fd"@ || arguments@[a]@ == "--handoff-fd"@ || arguments@[a]@
            == "--qualification-stats-fd"@,
{
    lemma_flags_are_known(arguments@, 0, no_options(), a, b);
}

proof fn lemma_flags_are_known(
    arguments: Seq<String>,
    from: int,
    before: ServeOptions,
    a: int,
    b: int,
)
    requires
        0 <= from <= a < b,
        b + 1 < arguments.len(),
        from % 2 == 0,
        a % 2 == 0,
        b % 2 == 0,
        options_from(arguments, from, before) is Some,
    ensures
        arguments[a]@ != arguments[b]@,
        arguments[a]@ == "--socket"@ || arguments[a]@ == "--state-dir"@ || arguments[a]@
            == "--readiness-fd"@ || arguments[a]@ == "--handoff-fd"@ || arguments[a]@
            == "--qualification-stats-fd"@,
    decreases a - from,
{
    lemma_flags_differ();
    let more = with_option(before, arguments[from]@, arguments[from + 1]@, from + 1)->Some_0;
    if from < a {
        lemma_flags_are_known(arguments, from + 2, more, a, b);
    } else if arguments[a]@ == arguments[b]@ {
        lemma_a_flag_is_not_given_again(arguments, from + 2, more, b);
    }
}

/// Whether an option is there already.
pub open spec fn has_option(options: ServeOptions, flag: Seq<char>) -> bool {
    ||| flag == "--socket"@ && options.socket is Some
    ||| flag == "--state-dir"@ && options.state_dir is Some
    ||| flag == "--readiness-fd"@ && options.readiness_fd is Some
    ||| flag == "--handoff-fd"@ && options.handoff_fd is Some
    ||| flag == "--qualification-stats-fd"@ && options.qualification_stats_fd is Some
}

proof fn lemma_a_flag_is_not_given_again(
    arguments: Seq<String>,
    from: int,
    before: ServeOptions,
    b: int,
)
    requires
        0 <= from <= b,
        b + 1 < arguments.len(),
        from % 2 == 0,
        b % 2 == 0,
        has_option(before, arguments[b]@),
    ensures
        options_from(arguments, from, before) is None,
    decreases b - from,
{
    lemma_flags_differ();
    if from < b {
        match with_option(before, arguments[from]@, arguments[from + 1]@, from + 1) {
            Some(more) => lemma_a_flag_is_not_given_again(arguments, from + 2, more, b),
            None => {},
        }
    }
}

/// A version is asked for by that word alone.
pub proof fn law_a_version_is_asked_for_alone(arguments: Vec<String>, r: Invocation)
    requires
        call_ensures(parse_arguments, (&arguments,), r),
    ensures
        r is Version <==> arguments@.len() == 1 && arguments@[0]@ == "--version"@,
        arguments@.len() % 2 == 1 && !(r is Version) ==> r is Usage,
        arguments@.len() == 0 ==> r is Usage,
{
    if let Invocation::Serve(options) = r {
        lemma_options_agree(arguments@, 0, no_options());
    }
}

/// Whether a known option stands at a place with its value, and is not there
/// already.
pub open spec fn can_be_taken(
    arguments: Seq<String>,
    place: int,
    before: ServeOptions,
) -> bool {
    let flag = arguments[place]@;
    &&& flag == "--socket"@ || flag == "--state-dir"@ || ((flag == "--readiness-fd"@ || flag
        == "--handoff-fd"@ || flag == "--qualification-stats-fd"@) && written_fd(
        arguments[place + 1]@,
    ) is Some)
    &&& !has_option(before, flag)
}

/// Whether two places hold different options.
pub open spec fn differ(arguments: Seq<String>, a: int, b: int) -> bool {
    arguments[a]@ != arguments[b]@
}

/// Whether every argument from a place on is a known option with its value, each
/// at most once, and none that is there already.
pub open spec fn is_well_formed(
    arguments: Seq<String>,
    from: int,
    before: ServeOptions,
) -> bool {
    &&& arguments.len() % 2 == 0
    &&& forall|place: int|
        from <= place < arguments.len() && place % 2 == 0 ==> #[trigger] can_be_taken(
            arguments,
            place,
            before,
        )
    &&& forall|a: int, b: int|
        from <= a < b < arguments.len() && a % 2 == 0 && b % 2 == 0 ==> #[trigger] differ(
            arguments,
            a,
            b,
        )
}

proof fn lemma_well_formed_options_are_taken(
    arguments: Seq<String>,
    from: int,
    before: ServeOptions,
)
    requires
        0 <= from <= arguments.len(),
        from % 2 == 0,
        is_well_formed(arguments, from, before),
    ensures
        options_from(arguments, from, before) is Some,
    decreases arguments.len() - from,
{
    lemma_flags_differ();
    if from < arguments.len() {
        assert(can_be_taken(arguments, from, before));
        let more = with_option(before, arguments[from]@, arguments[from + 1]@, from + 1);
        assert(more is Some);
        let rest = more->Some_0;
        assert forall|place: int|
            from + 2 <= place < arguments.len() && place % 2 == 0 implies #[trigger] can_be_taken(
            arguments,
            place,
            rest,
        ) by {
            assert(can_be_taken(arguments, place, before));
            assert(differ(arguments, from, place));
        }
        lemma_well_formed_options_are_taken(arguments, from + 2, rest);
    }
}

/// A command line of known options, each with its value and given once, among
/// them a socket, lets the daemon serve.
pub proof fn law_a_well_formed_command_line_serves(
    arguments: Vec<String>,
    r: Invocation,
    socket: int,
)
    requires
        is_well_formed(
            arguments@,
            0,
            (ServeOptions {
                socket: None,
                state_dir: None,
                qualification_stats_fd: None,
                readiness_fd: None,
                handoff_fd: None,
            }),
        ),
        0 <= socket < arguments@.len(),
        socket % 2 == 0,
        arguments@[socket]@ == "--socket"@,
        call_ensures(parse_arguments, (&arguments,), r),
    ensures
        r matches Invocation::Serve(options) && options.socket == Some((socket + 1) as usize),
{
    lemma_flags_differ();
    lemma_well_formed_options_are_taken(arguments@, 0, no_options());
    lemma_options_agree(arguments@, 0, no_options());
    assert(gives(arguments@, socket, "--socket"@));
    reveal_strlit("--version");
    reveal_strlit("--qualification-stats-fd");
    reveal_strlit("--readiness-fd");
    reveal_strlit("--handoff-fd");
    reveal_strlit("--socket");
    reveal_strlit("--state-dir");
    assert("--version"@.len() == 9);
    assert(arguments@[0]@ != "--version"@) by {
        assert("--qualification-stats-fd"@.len() == 24);
        assert("--readiness-fd"@.len() == 14);
        assert("--handoff-fd"@.len() == 12);
        assert("--socket"@.len() == 8);
        assert("--state-dir"@.len() == 11);
    }
}

/// Inherited descriptors are accepted exactly where no two are the same, and a
/// handoff comes with a state directory.
pub proof fn law_inherited_descriptors_are_distinct(
    options: ServeOptions,
    r: Result<(), &'static str>,
)
    requires
        call_ensures(resolve_inherited_descriptors, (&options,), r),
    ensures
        r is Ok <==> {
            &&& options.readiness_fd is Some ==> options.readiness_fd != options.handoff_fd
            &&& options.readiness_fd is Some ==> options.readiness_fd
                != options.qualification_stats_fd
            &&& options.handoff_fd is Some ==> options.handoff_fd != options.qualification_stats_fd
            &&& options.handoff_fd is Some ==> options.state_dir is Some
        },
{
}

/// Whether a colon stands at a place of a text.
pub open spec fn is_colon(text: Seq<char>, place: int) -> bool {
    0 <= place < text.len() && text[place] == ':'
}

/// A forward is the word behind the first `-L`, divided at its last colon; both
/// parts must be there.
pub proof fn law_a_forward_is_divided_at_its_last_colon(
    arguments: Vec<String>,
    r: Option<Forward>,
    place: int,
)
    requires
        0 <= place,
        place + 1 < arguments@.len(),
        arguments@[place]@ == "-L"@,
        forall|k: int| 0 <= k < place ==> (#[trigger] arguments@[k])@ != "-L"@,
        call_ensures(parse_forward, (&arguments,), r),
    ensures
        r matches Some(forward) ==> arguments@[place + 1]@ == forward.local@ + seq![':']
            + forward.remote@ && forward.local@.len() > 0 && forward.remote@.len() > 0
            && !forward.remote@.contains(':'),
        r is None ==> forall|k: int| #[trigger]
            is_colon(arguments@[place + 1]@, k) && 0 < k < arguments@[place + 1]@.len() - 1
                ==> exists|later: int|
                k < later && #[trigger] is_colon(arguments@[place + 1]@, later),
{
    assert(is_first_forward_flag(arguments@, place));
    let pair = arguments@[place + 1]@;
    assert(splits_forward(pair, r));
    match r {
        Some(forward) => {
            let colon = choose|colon: int|
                #![trigger is_last_colon(pair, colon)]
                is_last_colon(pair, colon) && colon > 0 && colon + 1 < pair.len() && forward.local@
                    == pair.take(colon) && forward.remote@ == pair.skip(colon + 1);
            assert(pair =~= forward.local@ + seq![':'] + forward.remote@);
            if forward.remote@.contains(':') {
                let k = choose|k: int| 0 <= k < forward.remote@.len() && forward.remote@[k] == ':';
                assert(pair[colon + 1 + k] == ':');
            }
        },
        None => {
            assert forall|k: int| #[trigger]
                is_colon(pair, k) && 0 < k < pair.len() - 1 implies exists|later: int|
                k < later && #[trigger] is_colon(pair, later) by {
                if forall|later: int| k < later ==> !(#[trigger] is_colon(pair, later)) {
                    assert forall|j: int| k < j < pair.len() implies pair[j] != ':' by {
                        assert(!is_colon(pair, j));
                    }
                    assert(is_last_colon(pair, k));
                }
            }
        },
    }
}

/// Without the flag there is no forward.
pub proof fn law_a_forward_needs_its_flag(arguments: Vec<String>, r: Option<Forward>)
    requires
        forall|k: int| 0 <= k < arguments@.len() ==> (#[trigger] arguments@[k])@ != "-L"@,
        call_ensures(parse_forward, (&arguments,), r),
    ensures
        r is None,
{
    assert forall|place: int| !is_first_forward_flag(arguments@, place) by {
        if is_first_forward_flag(arguments@, place) {
            assert(arguments@[place]@ != "-L"@);
        }
    }
}

/// The number that a character of the alphabet stands for.
pub open spec fn sextet(text: u8) -> int {
    if 'A' as u8 <= text <= 'Z' as u8 {
        text - 'A' as u8
    } else if 'a' as u8 <= text <= 'z' as u8 {
        text - 'a' as u8 + 26
    } else if '0' as u8 <= text <= '9' as u8 {
        text - '0' as u8 + 52
    } else if text == '+' as u8 {
        62
    } else if text == '/' as u8 {
        63
    } else {
        -1
    }
}

/// Three bytes are written as the four digits, to the base of sixty-four, of the
/// number that they make; the rest follows as it is written alone.
pub proof fn law_three_bytes_are_written_as_four_digits(
    data: Vec<u8>,
    text: Vec<u8>,
    rest: Vec<u8>,
    rest_text: Vec<u8>,
)
    requires
        data@.len() >= 3,
        rest@ == data@.skip(3),
        call_ensures(encode_base64, (&data,), text),
        call_ensures(encode_base64, (&rest,), rest_text),
    ensures
        text@.len() >= 4,
        text@.skip(4) == rest_text@,
        sextet(text@[0]) >= 0 && sextet(text@[1]) >= 0 && sextet(text@[2]) >= 0 && sextet(text@[3])
            >= 0,
        sextet(text@[0]) * 262144 + sextet(text@[1]) * 4096 + sextet(text@[2]) * 64 + sextet(
            text@[3],
        ) == data@[0] * 65536 + data@[1] * 256 + data@[2],
{
    let (x, y, z) = (data@[0] as int, data@[1] as int, data@[2] as int);
    lemma_sextet(x / 4);
    lemma_sextet(x % 4 * 16 + y / 16);
    lemma_sextet(y % 16 * 4 + z / 64);
    lemma_sextet(z % 64);
    assert(text@.skip(4) =~= encoded(data@.skip(3)));
}

proof fn lemma_sextet(value: int)
    requires
        0 <= value < 64,
    ensures
        sextet(symbol(value)) == value,
{
}

/// One or two last bytes are written with padding.
pub proof fn law_last_bytes_are_padded(data: Vec<u8>, text: Vec<u8>)
    requires
        data@.len() < 3,
        call_ensures(encode_base64, (&data,), text),
    ensures
        data@.len() == 0 ==> text@.len() == 0,
        data@.len() > 0 ==> text@.len() == 4 && text@[3] == '=' as u8,
        data@.len() == 1 ==> text@[2] == '=' as u8 && sextet(text@[0]) * 64 + sextet(text@[1])
            == data@[0] * 16,
        data@.len() == 2 ==> sextet(text@[0]) * 4096 + sextet(text@[1]) * 64 + sextet(text@[2])
            == (data@[0] * 256 + data@[1]) * 4,
{
    if data@.len() > 0 {
        let x = data@[0] as int;
        lemma_sextet(x / 4);
        lemma_sextet(x % 4 * 16);
        if data@.len() > 1 {
            let y = data@[1] as int;
            lemma_sextet(x % 4 * 16 + y / 16);
            lemma_sextet(y % 16 * 4);
        }
    }
}

/// What was written is read back, and nothing else is read than what can be
/// written.
pub proof fn law_written_bytes_are_read_back(
    data: Vec<u8>,
    text: Vec<u8>,
    read: Option<Vec<u8>>,
    other: Vec<u8>,
    other_read: Option<Vec<u8>>,
    again: Vec<u8>,
)
    requires
        call_ensures(encode_base64, (&data,), text),
        call_ensures(decode_base64, (&text,), read),
        call_ensures(decode_base64, (&other,), other_read),
        other_read matches Some(found) ==> call_ensures(encode_base64, (&found,), again),
    ensures
        read matches Some(found) && found@ == data@,
        other_read is Some ==> again@ == other@,
{
    match read {
        Some(found) => crate::base64::law_text_identifies_its_bytes(found@, data@),
        None => {
            assert(encoded(data@) == text@);
        },
    }
}

} // verus!
