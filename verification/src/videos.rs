//! The video files of the server: which of them are channels, and under which
//! name a new one is stored.

use vstd::prelude::*;
use vstd::seq_lib::{
    to_multiset_build, to_multiset_contains, to_multiset_insert, to_multiset_len,
    to_multiset_remove,
};
use vstd::set_lib::{lemma_int_range, lemma_len_subset, set_int_range};
use vstd::slice::slice_to_vec;
use vstd::utf8::{
    decode_utf8, decode_utf8_encode_utf8, encode_utf8, encode_utf8_decode_utf8,
    encode_utf8_valid_utf8, is_ascii_chars_encode_utf8, valid_utf8,
};

use crate::text;
use crate::text::{decimal, is_digit, number_value, NumberError};

verus! {

/// An entry of a directory.
#[derive(Debug)]
pub struct DirEntry {
    /// The path of the entry, as text.
    pub path: String,
    /// The bytes of the entry's name.
    pub file_name: Vec<u8>,
    /// Whether the entry is a file.
    pub is_file: bool,
}

/// Whether the extension of a file name is mp4: the name ends in `.mp4` and
/// something comes before that.
pub open spec fn has_mp4_extension(name: Seq<u8>) -> bool {
    name.len() > 4 && name.skip(name.len() - 4) == seq![0x2eu8, 0x6du8, 0x70u8, 0x34u8]
}

/// Whether an entry is a video.
pub open spec fn is_video(entry: DirEntry) -> bool {
    entry.is_file && has_mp4_extension(entry.file_name@)
}

fn is_mp4(name: &Vec<u8>) -> (found: bool)
    ensures
        found == has_mp4_extension(name@),
{
    let length = name.len();
    if length <= 4 {
        return false;
    }
    let found = name[length - 4] == 0x2e && name[length - 3] == 0x6d && name[length - 2] == 0x70
        && name[length - 1] == 0x34;
    let ghost tail = name@.skip(length - 4);
    proof {
        if found {
            assert(tail =~= seq![0x2eu8, 0x6du8, 0x70u8, 0x34u8]);
        } else {
            assert(tail[0] == name@[length - 4] && tail[1] == name@[length - 3] && tail[2]
                == name@[length - 2] && tail[3] == name@[length - 1]);
        }
    }
    found
}

/// The paths of the videos among the entries of a directory, in the order in
/// which they are listed.
pub open spec fn video_paths(entries: Seq<DirEntry>) -> Seq<Seq<char>> {
    entries.filter(|entry: DirEntry| is_video(entry)).map_values(|entry: DirEntry| entry.path@)
}

/// The paths of the videos among the entries of a directory, in the order in
/// which they are listed.
pub fn get_mp4_files(entries: &Vec<DirEntry>) -> (files: Vec<String>)
    ensures
        files@.map_values(|file: String| file@) == video_paths(entries@),
{
    let mut files: Vec<String> = Vec::new();
    let ghost keep = |entry: DirEntry| is_video(entry);
    let ghost path = |entry: DirEntry| entry.path@;
    let ghost view = |file: String| file@;
    let mut i: usize = 0;
    proof {
        reveal(Seq::filter);
        assert(entries@.take(0) =~= Seq::<DirEntry>::empty());
        assert(files@.map_values(view) =~= entries@.take(0).filter(keep).map_values(path));
    }
    while i < entries.len()
        invariant
            i <= entries.len(),
            keep == (|entry: DirEntry| is_video(entry)),
            path == (|entry: DirEntry| entry.path@),
            view == (|file: String| file@),
            files@.map_values(view) == entries@.take(i as int).filter(keep).map_values(path),
        decreases entries.len() - i,
    {
        let entry = &entries[i];
        let ghost before = files@;
        if entry.is_file && is_mp4(&entry.file_name) {
            files.push(entry.path.clone());
        }
        proof {
            reveal(Seq::filter);
            let prefix = entries@.take(i + 1);
            assert(prefix.drop_last() =~= entries@.take(i as int));
            assert(prefix.last() == entry);
            if is_video(*entry) {
                assert(files@.map_values(view) =~= before.map_values(view).push(entry.path@));
                assert(prefix.filter(keep).map_values(path) =~= entries@.take(i as int).filter(
                    keep,
                ).map_values(path).push(entry.path@));
            }
        }
        i += 1;
    }
    assert(entries@.take(i as int) =~= entries@);
    files
}

/// The pattern of the names under which uploaded videos are stored.
pub open spec fn user_file_pattern() -> Seq<char> {
    "^user_(\\d+)\\.mp4$"@
}

/// The part of a name between `user_` and `.mp4`, if the name is made like
/// this and the part is not empty.
pub open spec fn user_part(name: Seq<char>) -> Option<Seq<char>> {
    if name.len() > 9 && name.take(5) == seq!['u', 's', 'e', 'r', '_'] && name.skip(name.len() - 4)
        == seq!['.', 'm', 'p', '4'] {
        Some(name.subrange(5, name.len() - 4))
    } else {
        None
    }
}

/// Whether a text is made of the digits 0 to 9 alone.
pub open spec fn all_digits(part: Seq<char>) -> bool {
    forall|i: int| 0 <= i < part.len() ==> is_digit(#[trigger] part[i])
}

/// What the first group of a pattern takes in from a text that matches.
pub uninterp spec fn first_group_of(pattern: Seq<char>, name: Seq<char>) -> Option<Seq<char>>;

/// `Regex::new` on the pattern of stored names, then `Regex::captures` on a
/// name and `Captures::get` for the first group. The group is what stands
/// between `user_` and `.mp4`. It matches when that part is made of the digits
/// 0 to 9, and its characters below U+0660 are always such digits, since U+0660 is
/// the first other one in the table of the `regex` crate; which characters from
/// there on count as digits is left to that table.
#[verifier::external_body]
fn first_group(pattern: &str, name: &str) -> (group: Option<String>)
    requires
        pattern@ == user_file_pattern(),
    ensures
        match group {
            Some(part) => first_group_of(pattern@, name@) == Some(part@),
            None => first_group_of(pattern@, name@) is None,
        },
        group matches Some(part) ==> user_part(name@) == Some(part@),
        group matches Some(part) ==> forall|i: int|
            0 <= i < part@.len() && (#[trigger] part@[i] as u32) < 0x660 ==> is_digit(part@[i]),
        user_part(name@) matches Some(part) && all_digits(part) ==> group is Some,
{
    let regex = regex::Regex::new(pattern).unwrap();
    regex.captures(name).and_then(|groups| groups.get(1)).map(|part| part.as_str().to_string())
}

/// The number in the name of an entry, if the entry is a file under the name
/// of an uploaded video.
pub open spec fn entry_number(entry: DirEntry) -> Option<Result<nat, NumberError>> {
    if entry.is_file && valid_utf8(entry.file_name@) {
        match first_group_of(user_file_pattern(), decode_utf8(entry.file_name@)) {
            Some(part) => Some(number_value(part, u32::MAX as nat)),
            None => None,
        }
    } else {
        None
    }
}

/// The numbers in the names of the uploaded videos, in the order in which they
/// are listed, or the error of the first name whose number cannot be read.
pub open spec fn numbers_of(entries: Seq<DirEntry>) -> Result<Seq<u32>, NumberError>
    decreases entries.len(),
{
    if entries.len() == 0 {
        Ok(seq![])
    } else {
        match numbers_of(entries.drop_last()) {
            Err(error) => Err(error),
            Ok(numbers) => match entry_number(entries.last()) {
                None => Ok(numbers),
                Some(Ok(number)) => Ok(numbers.push(number as u32)),
                Some(Err(error)) => Err(error),
            },
        }
    }
}

proof fn lemma_numbers_fault(entries: Seq<DirEntry>, upto: int)
    requires
        0 <= upto <= entries.len(),
        numbers_of(entries.take(upto)) is Err,
    ensures
        numbers_of(entries) == numbers_of(entries.take(upto)),
    decreases entries.len(),
{
    if upto < entries.len() {
        assert(entries.drop_last().take(upto) =~= entries.take(upto));
        lemma_numbers_fault(entries.drop_last(), upto);
    } else {
        assert(entries.take(upto) =~= entries);
    }
}

/// Whether the number of an entry is the one that its name shows: none, unless
/// the entry is a file named `user_<part>.mp4`; the value of the part, if it is
/// made of the digits 0 to 9; none, if it holds any other character below U+0660,
/// the first digit of another script; and in no case anything but the value of the
/// part.
pub open spec fn number_shows(entry: DirEntry) -> bool {
    if entry.is_file && valid_utf8(entry.file_name@) {
        match user_part(decode_utf8(entry.file_name@)) {
            Some(part) => {
                &&& all_digits(part) ==> entry_number(entry) == Some(
                    number_value(part, u32::MAX as nat),
                )
                &&& (exists|i: int|
                    0 <= i < part.len() && (#[trigger] part[i] as u32) < 0x660 && !is_digit(part[i]))
                    ==> entry_number(entry) is None
                &&& entry_number(entry) matches Some(number) ==> number == number_value(
                    part,
                    u32::MAX as nat,
                )
            },
            None => entry_number(entry) is None,
        }
    } else {
        entry_number(entry) is None
    }
}

/// Whether the number of each entry is the one that its name shows.
pub open spec fn all_show(entries: Seq<DirEntry>) -> bool {
    forall|i: int| 0 <= i < entries.len() ==> number_shows(#[trigger] entries[i])
}

/// Whether some entry has a number that cannot be read, for the given reason, and
/// it and all entries before it have the number that their name shows.
pub open spec fn shows_fault(entries: Seq<DirEntry>, error: NumberError) -> bool {
    exists|at: int|
        {
            &&& 0 <= at < entries.len()
            &&& entry_number(#[trigger] entries[at]) == Some(Err::<nat, NumberError>(error))
            &&& forall|i: int| 0 <= i <= at ==> number_shows(#[trigger] entries[i])
        }
}

fn read_entry_number(entry: &DirEntry) -> (number: Option<Result<u32, NumberError>>)
    ensures
        match number {
            None => entry_number(*entry) is None,
            Some(Ok(value)) => entry_number(*entry) == Some(
                Ok::<nat, NumberError>(value as nat),
            ),
            Some(Err(error)) => entry_number(*entry) == Some(Err::<nat, NumberError>(error)),
        },
        number_shows(*entry),
{
    if !entry.is_file {
        return None;
    }
    match String::from_utf8(slice_to_vec(entry.file_name.as_slice())) {
        Err(_) => None,
        Ok(name) => match first_group("^user_(\\d+)\\.mp4$", name.as_str()) {
            None => None,
            Some(part) => Some(text::parse_number(part.as_str(), u32::MAX)),
        },
    }
}

/// The numbers in the names of the uploaded videos among the entries of a
/// directory.
pub fn user_numbers(entries: &Vec<DirEntry>) -> (numbers: Result<Vec<u32>, NumberError>)
    ensures
        match numbers {
            Ok(numbers) => {
                &&& numbers_of(entries@) == Ok::<Seq<u32>, NumberError>(numbers@)
                &&& all_show(entries@)
            },
            Err(error) => {
                &&& numbers_of(entries@) == Err::<Seq<u32>, NumberError>(error)
                &&& shows_fault(entries@, error)
            },
        },
{
    let mut numbers: Vec<u32> = Vec::new();
    let mut i: usize = 0;
    assert(entries@.take(0) =~= Seq::<DirEntry>::empty());
    while i < entries.len()
        invariant
            i <= entries.len(),
            numbers_of(entries@.take(i as int)) == Ok::<Seq<u32>, NumberError>(numbers@),
            forall|j: int| 0 <= j < i ==> number_shows(#[trigger] entries@[j]),
        decreases entries.len() - i,
    {
        let entry = &entries[i];
        let number = read_entry_number(entry);
        proof {
            let prefix = entries@.take(i + 1);
            assert(prefix.drop_last() =~= entries@.take(i as int));
            assert(prefix.last() == entry);
            if numbers_of(prefix) is Err {
                lemma_numbers_fault(entries@, i + 1);
            }
        }
        match number {
            None => {},
            Some(Ok(value)) => {
                numbers.push(value);
            },
            Some(Err(error)) => {
                assert(entry_number(entries@[i as int]) == Some(Err::<nat, NumberError>(error)));
                return Err(error);
            },
        }
        i += 1;
    }
    assert(entries@.take(i as int) =~= entries@);
    Ok(numbers)
}

/// The least number from a given one on that is not among the numbers.
pub open spec fn least_missing_from(numbers: Seq<u32>, from: nat) -> nat
    decreases u32::MAX + 1 - from,
{
    if from <= u32::MAX && numbers.contains(from as u32) {
        least_missing_from(numbers, from + 1)
    } else {
        from
    }
}

/// The least number that is not among the numbers.
pub open spec fn least_missing(numbers: Seq<u32>) -> nat {
    least_missing_from(numbers, 0)
}

proof fn lemma_least_missing_from(numbers: Seq<u32>, from: nat, least: nat)
    requires
        from <= least <= u32::MAX,
        forall|n: nat| from <= n < least ==> numbers.contains(#[trigger] (n as u32)),
        !numbers.contains(least as u32),
    ensures
        least_missing_from(numbers, from) == least,
    decreases least - from,
{
    if from < least {
        assert(numbers.contains(from as u32));
        lemma_least_missing_from(numbers, from + 1, least);
    }
}

proof fn lemma_least_missing_shape(numbers: Seq<u32>, from: nat)
    requires
        from <= u32::MAX + 1,
    ensures
        from <= least_missing_from(numbers, from) <= u32::MAX + 1,
        forall|n: nat|
            from <= n < least_missing_from(numbers, from) ==> numbers.contains(
                #[trigger] (n as u32),
            ),
        least_missing_from(numbers, from) <= u32::MAX ==> !numbers.contains(
            least_missing_from(numbers, from) as u32,
        ),
    decreases u32::MAX + 1 - from,
{
    if from <= u32::MAX && numbers.contains(from as u32) {
        lemma_least_missing_shape(numbers, from + 1);
    }
}

/// The least missing number is missing, all numbers below it are there, and it
/// is at most the number of numbers. So it fits in four bytes as long as there
/// are fewer numbers than such numbers in all.
pub proof fn law_least_missing(numbers: Seq<u32>)
    ensures
        least_missing(numbers) <= numbers.len(),
        forall|n: nat|
            n < least_missing(numbers) ==> n <= u32::MAX && numbers.contains(
                #[trigger] (n as u32),
            ),
        least_missing(numbers) <= u32::MAX ==> !numbers.contains(least_missing(numbers) as u32),
{
    lemma_least_missing_shape(numbers, 0);
    let least = least_missing(numbers);
    let values = numbers.map_values(|n: u32| n as int);
    let range = set_int_range(0, least as int);
    assert forall|v: int| range.contains(v) implies values.to_set().contains(v) by {
        assert(numbers.contains((v as nat) as u32));
        let i = choose|i: int| 0 <= i < numbers.len() && numbers[i] == v as u32;
        assert(values[i] == v);
    }
    lemma_int_range(0, least as int);
    values.lemma_cardinality_of_set();
    lemma_len_subset(range, values.to_set());
}

fn has_number(numbers: &Vec<u32>, number: u32) -> (found: bool)
    ensures
        found == numbers@.contains(number),
{
    let mut i: usize = 0;
    while i < numbers.len()
        invariant
            i <= numbers.len(),
            forall|j: int| 0 <= j < i ==> numbers@[j] != number,
        decreases numbers.len() - i,
    {
        if numbers[i] == number {
            return true;
        }
        i += 1;
    }
    false
}

/// The least number that is not among the numbers.
pub fn next_user_number(numbers: &Vec<u32>) -> (next: u32)
    requires
        exists|n: u32| !numbers@.contains(n),
    ensures
        next == least_missing(numbers@),
{
    let ghost free = choose|n: u32| !numbers@.contains(n);
    let mut next: u32 = 0;
    while has_number(numbers, next)
        invariant
            !numbers@.contains(free),
            next <= free,
            forall|n: nat| n < next ==> numbers@.contains(#[trigger] (n as u32)),
        decreases free - next,
    {
        next += 1;
    }
    proof {
        lemma_least_missing_from(numbers@, 0, next as nat);
    }
    next
}

/// The name under which a video is stored.
pub open spec fn stored_name(base_name: Seq<char>, number: nat) -> Seq<char> {
    base_name + "_"@ + decimal(number) + ".mp4"@
}

/// The name under which a video is stored.
pub fn video_name(base_name: &str, number: u32) -> (name: String)
    ensures
        name@ == stored_name(base_name@, number as nat),
{
    let mut name = base_name.to_string();
    name.append("_");
    text::append_number(&mut name, number);
    name.append(".mp4");
    name
}

proof fn lemma_entry_number_fits(entry: DirEntry)
    ensures
        entry_number(entry) matches Some(Ok(number)) ==> number <= u32::MAX,
{
    if entry_number(entry) is Some {
        let part = first_group_of(user_file_pattern(), decode_utf8(entry.file_name@))->Some_0;
        text::law_number_within_bound(part, u32::MAX as nat);
    }
}

proof fn lemma_numbers_of(entries: Seq<DirEntry>)
    ensures
        numbers_of(entries) matches Ok(numbers) ==> {
            &&& numbers.len() <= entries.len()
            &&& forall|i: int|
                0 <= i < entries.len() ==> match entry_number(#[trigger] entries[i]) {
                    Some(Ok(number)) => numbers.contains(number as u32),
                    Some(Err(_)) => false,
                    None => true,
                }
            &&& forall|n: u32| #[trigger]
                numbers.contains(n) ==> exists|i: int|
                    0 <= i < entries.len() && entry_number(#[trigger] entries[i]) == Some(
                        Ok::<nat, NumberError>(n as nat),
                    )
        },
    decreases entries.len(),
{
    if entries.len() > 0 && numbers_of(entries) is Ok {
        let rest = entries.drop_last();
        lemma_numbers_of(rest);
        let before = numbers_of(rest)->Ok_0;
        let numbers = numbers_of(entries)->Ok_0;
        assert forall|n: u32| before.contains(n) implies numbers.contains(n) by {
            let at = choose|at: int| 0 <= at < before.len() && before[at] == n;
            assert(numbers[at] == n);
        }
        assert forall|i: int| 0 <= i < entries.len() implies match entry_number(
            #[trigger] entries[i],
        ) {
            Some(Ok(number)) => numbers.contains(number as u32),
            Some(Err(_)) => false,
            None => true,
        } by {
            if i < rest.len() {
                assert(entries[i] == rest[i]);
            } else if let Some(Ok(number)) = entry_number(entries[i]) {
                assert(numbers.last() == number as u32);
            }
        }
        assert forall|n: u32| #[trigger] numbers.contains(n) implies exists|i: int|
            0 <= i < entries.len() && entry_number(#[trigger] entries[i]) == Some(
                Ok::<nat, NumberError>(n as nat),
            ) by {
            if before.contains(n) {
                let i = choose|i: int|
                    0 <= i < rest.len() && entry_number(#[trigger] rest[i]) == Some(
                        Ok::<nat, NumberError>(n as nat),
                    );
                assert(entries[i] == rest[i]);
            } else {
                let at = choose|at: int| 0 <= at < numbers.len() && numbers[at] == n;
                assert(at < before.len() ==> before[at] == n);
                lemma_entry_number_fits(entries.last());
                assert(entries[entries.len() - 1] == entries.last());
            }
        }
    }
}

proof fn lemma_stored_user_name(number: nat)
    requires
        number <= u32::MAX,
    ensures
        user_part(stored_name("user"@, number)) == Some(decimal(number)),
        all_digits(decimal(number)),
        number_value(decimal(number), u32::MAX as nat) == Ok::<nat, NumberError>(number),
{
    reveal_strlit("user");
    reveal_strlit("_");
    reveal_strlit(".mp4");
    text::law_number_read_back(number, u32::MAX as nat);
    let name = stored_name("user"@, number);
    let digits = decimal(number);
    assert(name.take(5) =~= seq!['u', 's', 'e', 'r', '_']);
    assert(name.skip(name.len() - 4) =~= seq!['.', 'm', 'p', '4']);
    assert(name.subrange(5, name.len() - 4) =~= digits);
}

/// Whether an entry is a file named `user_<part>.mp4` where the part is made of the
/// digits 0 to 9 and has this value.
pub open spec fn shows_number(entry: DirEntry, number: u32) -> bool {
    &&& entry.is_file
    &&& valid_utf8(entry.file_name@)
    &&& user_part(decode_utf8(entry.file_name@)) matches Some(part)
    &&& all_digits(part)
    &&& number_value(part, u32::MAX as nat) == Ok::<nat, NumberError>(number as nat)
}

/// Whether no entry shows a number.
pub open spec fn is_free(entries: Seq<DirEntry>, number: u32) -> bool {
    forall|i: int| 0 <= i < entries.len() ==> !shows_number(#[trigger] entries[i], number)
}

/// Whether there is a number that no entry shows.
pub open spec fn has_free_number(entries: Seq<DirEntry>) -> bool {
    exists|number: u32| #[trigger] is_free(entries, number)
}

/// A directory of fewer entries than there are numbers has a free number.
pub proof fn law_few_entries_leave_a_number(entries: Seq<DirEntry>)
    requires
        entries.len() <= u32::MAX,
    ensures
        has_free_number(entries),
{
    let shown = entries.map_values(
        |entry: DirEntry| choose|number: u32| shows_number(entry, number),
    );
    law_least_missing(shown);
    let free = least_missing(shown) as u32;
    assert forall|i: int| 0 <= i < entries.len() implies !shows_number(
        #[trigger] entries[i],
        free,
    ) by {
        if shows_number(entries[i], free) {
            assert(shown[i] == free);
        }
    }
    assert(is_free(entries, free));
}

proof fn lemma_free_number_is_missing(entries: Seq<DirEntry>, numbers: Seq<u32>, free: u32)
    requires
        numbers_of(entries) == Ok::<Seq<u32>, NumberError>(numbers),
        all_show(entries),
        is_free(entries, free),
    ensures
        !numbers.contains(free),
        least_missing(numbers) <= u32::MAX,
        !numbers.contains(least_missing(numbers) as u32),
{
    lemma_numbers_of(entries);
    if numbers.contains(free) {
        let i = choose|i: int|
            0 <= i < entries.len() && entry_number(#[trigger] entries[i]) == Some(
                Ok::<nat, NumberError>(free as nat),
            );
        assert(number_shows(entries[i]));
        let part = user_part(decode_utf8(entries[i].file_name@))->Some_0;
        assert(part[0] != '+');
        text::law_number_has_digits(part, u32::MAX as nat);
        assert(shows_number(entries[i], free));
    }
    lemma_least_missing_shape(numbers, 0);
    if least_missing(numbers) > free {
        assert(numbers.contains((free as nat) as u32));
    }
}

/// The name under which the next uploaded video is stored, given the entries of
/// the directory: the least number that no stored video has, as the names of the
/// files show. With the base name of uploaded videos it is the name of no file in
/// the directory. There is no name when the number of some file cannot be read.
pub open spec fn names_next(
    entries: Seq<DirEntry>,
    base_name: Seq<char>,
    result: Result<Seq<char>, NumberError>,
) -> bool {
    match result {
        Ok(name) => {
            &&& numbers_of(entries) matches Ok(numbers)
            &&& all_show(entries)
            &&& name == stored_name(base_name, least_missing(numbers))
            &&& base_name == "user"@ ==> forall|i: int|
                0 <= i < entries.len() && (#[trigger] entries[i]).is_file ==> entries[i].file_name@
                    != encode_utf8(name)
        },
        Err(error) => {
            &&& numbers_of(entries) == Err::<Seq<u32>, NumberError>(error)
            &&& shows_fault(entries, error)
        },
    }
}

/// The name under which the next uploaded video is stored, given the entries of
/// the directory.
pub fn get_next_user_filename(entries: &Vec<DirEntry>, base_name: &str) -> (result: Result<
    String,
    NumberError,
>)
    requires
        has_free_number(entries@),
    ensures
        match result {
            Ok(name) => names_next(entries@, base_name@, Ok(name@)),
            Err(error) => names_next(entries@, base_name@, Err(error)),
        },
{
    match user_numbers(entries) {
        Err(error) => Err(error),
        Ok(numbers) => {
            proof {
                let free = choose|number: u32| is_free(entries@, number);
                lemma_free_number_is_missing(entries@, numbers@, free);
                lemma_numbers_of(entries@);
            }
            let next = next_user_number(&numbers);
            let name = video_name(base_name, next);
            proof {
                if base_name@ == "user"@ {
                    lemma_stored_user_name(next as nat);
                    encode_utf8_valid_utf8(name@);
                    encode_utf8_decode_utf8(name@);
                    assert forall|i: int|
                        0 <= i < entries@.len() && (
                        #[trigger] entries@[i]).is_file implies entries@[i].file_name@
                        != encode_utf8(name@) by {
                        if entries@[i].file_name@ == encode_utf8(name@) {
                            assert(number_shows(entries@[i]));
                            assert(numbers@.contains(next));
                        }
                    }
                }
            }
            Ok(name)
        },
    }
}

/// The numbers grow: once a file lies under the name that was given, and no entry
/// has gone, the next name has a greater number. So it is another name, and
/// neither was the name of a file when it was given.
pub proof fn law_next_number_grows(
    before: Seq<DirEntry>,
    first: Seq<char>,
    after: Seq<DirEntry>,
    at: int,
    second: Seq<char>,
)
    requires
        has_free_number(before),
        has_free_number(after),
        names_next(before, "user"@, Ok(first)),
        forall|i: int| 0 <= i < before.len() ==> after.contains(#[trigger] before[i]),
        0 <= at < after.len(),
        after[at].is_file,
        after[at].file_name@ == encode_utf8(first),
        names_next(after, "user"@, Ok(second)),
    ensures
        exists|n: nat, m: nat|
            n < m <= u32::MAX && first == #[trigger] stored_name("user"@, n) && second
                == #[trigger] stored_name("user"@, m),
        first != second,
        forall|i: int|
            0 <= i < before.len() && (#[trigger] before[i]).is_file ==> before[i].file_name@
                != encode_utf8(first),
        forall|i: int|
            0 <= i < after.len() && (#[trigger] after[i]).is_file ==> after[i].file_name@
                != encode_utf8(second),
{
    let old_numbers = numbers_of(before)->Ok_0;
    let new_numbers = numbers_of(after)->Ok_0;
    let n = least_missing(old_numbers);
    let m = least_missing(new_numbers);
    lemma_numbers_of(before);
    lemma_numbers_of(after);
    lemma_free_number_is_missing(
        before,
        old_numbers,
        choose|number: u32| is_free(before, number),
    );
    lemma_free_number_is_missing(
        after,
        new_numbers,
        choose|number: u32| is_free(after, number),
    );
    law_least_missing(old_numbers);
    law_least_missing(new_numbers);
    lemma_stored_user_name(n);
    encode_utf8_valid_utf8(first);
    encode_utf8_decode_utf8(first);
    assert(number_shows(after[at]));
    assert(entry_number(after[at]) == Some(Ok::<nat, NumberError>(n)));
    assert(new_numbers.contains(n as u32));
    if m < n {
        assert(old_numbers.contains(m as u32));
        let i = choose|i: int|
            0 <= i < before.len() && entry_number(#[trigger] before[i]) == Some(
                Ok::<nat, NumberError>(m),
            );
        assert(after.contains(before[i]));
        let j = choose|j: int| 0 <= j < after.len() && after[j] == before[i];
        assert(entry_number(after[j]) == Some(Ok::<nat, NumberError>(m)));
        assert(new_numbers.contains(m as u32));
    }
    assert(n < m);
    assert(first == stored_name("user"@, n) && second == stored_name("user"@, m));
}

/// A video that is stored under a made-up name counts as a video when the
/// directory is listed again.
pub proof fn law_stored_name_is_listed(base_name: Seq<char>, number: nat, entry: DirEntry)
    requires
        entry.is_file,
        entry.file_name@ == encode_utf8(stored_name(base_name, number)),
    ensures
        is_video(entry),
{
    reveal_strlit("_");
    reveal_strlit(".mp4");
    let front = base_name + "_"@ + decimal(number);
    text::law_encode_concat(front, ".mp4"@);
    text::law_encode_concat(base_name + "_"@, decimal(number));
    text::law_encode_concat(base_name, "_"@);
    is_ascii_chars_encode_utf8("_"@);
    is_ascii_chars_encode_utf8(".mp4"@);
    let tail = encode_utf8(".mp4"@);
    let bytes = entry.file_name@;
    assert(bytes.skip(bytes.len() - 4) =~= tail);
    assert(tail =~= seq![0x2eu8, 0x6du8, 0x70u8, 0x34u8]) by {
        assert(".mp4"@[0] as u8 == tail[0] && ".mp4"@[1] as u8 == tail[1] && ".mp4"@[2] as u8
            == tail[2] && ".mp4"@[3] as u8 == tail[3]);
    }
}

/// When a file comes to be listed behind the others, its path comes to stand
/// behind the others if it is a video, and nothing changes if it is not.
pub proof fn law_listing_grows(entries: Seq<DirEntry>, entry: DirEntry)
    ensures
        video_paths(entries.push(entry)) == if is_video(entry) {
            video_paths(entries).push(entry.path@)
        } else {
            video_paths(entries)
        },
{
    reveal(Seq::filter);
    assert(entries.push(entry).drop_last() =~= entries);
    assert(video_paths(entries.push(entry)) =~= if is_video(entry) {
        video_paths(entries).push(entry.path@)
    } else {
        video_paths(entries)
    });
}

proof fn lemma_paths_concat(front: Seq<DirEntry>, back: Seq<DirEntry>)
    ensures
        video_paths(front + back) == video_paths(front) + video_paths(back),
{
    let keep = |entry: DirEntry| is_video(entry);
    Seq::filter_distributes_over_add(front, back, keep);
    assert(video_paths(front + back) =~= video_paths(front) + video_paths(back));
}

proof fn lemma_paths_without(entries: Seq<DirEntry>, at: int)
    requires
        0 <= at < entries.len(),
    ensures
        video_paths(entries).to_multiset() == if is_video(entries[at]) {
            video_paths(entries.remove(at)).to_multiset().insert(entries[at].path@)
        } else {
            video_paths(entries.remove(at)).to_multiset()
        },
{
    let entry = entries[at];
    let front = entries.take(at);
    let back = entries.skip(at + 1);
    assert(entries =~= front.push(entry) + back);
    assert(entries.remove(at) =~= front + back);
    lemma_paths_concat(front.push(entry), back);
    lemma_paths_concat(front, back);
    law_listing_grows(front, entry);
    let rest = video_paths(entries.remove(at));
    if is_video(entry) {
        let place = video_paths(front).len() as int;
        assert(video_paths(entries) =~= rest.insert(place, entry.path@));
        to_multiset_insert(rest, place, entry.path@);
    }
}

proof fn lemma_paths_of_reordered(one: Seq<DirEntry>, other: Seq<DirEntry>)
    requires
        one.to_multiset() == other.to_multiset(),
    ensures
        video_paths(one).to_multiset() == video_paths(other).to_multiset(),
    decreases one.len(),
{
    to_multiset_len(one);
    to_multiset_len(other);
    if one.len() == 0 {
        assert(one =~= other);
    } else {
        let last = one.len() - 1;
        to_multiset_contains(one, one[last]);
        to_multiset_contains(other, one[last]);
        let at = choose|at: int| 0 <= at < other.len() && other[at] == one[last];
        to_multiset_remove(one, last);
        to_multiset_remove(other, at);
        lemma_paths_of_reordered(one.remove(last), other.remove(at));
        lemma_paths_without(one, last);
        lemma_paths_without(other, at);
    }
}

/// When a directory has one entry more, in whatever order it is listed then, the
/// same videos are listed as before, and the new entry besides them if it is a
/// video.
pub proof fn law_listing_grows_in_any_order(
    before: Seq<DirEntry>,
    entry: DirEntry,
    after: Seq<DirEntry>,
)
    requires
        after.to_multiset() == before.to_multiset().insert(entry),
    ensures
        video_paths(after).to_multiset() == if is_video(entry) {
            video_paths(before).to_multiset().insert(entry.path@)
        } else {
            video_paths(before).to_multiset()
        },
        video_paths(after).len() == video_paths(before).len() + if is_video(entry) {
            1int
        } else {
            0
        },
{
    to_multiset_build(before, entry);
    lemma_paths_of_reordered(after, before.push(entry));
    law_listing_grows(before, entry);
    if is_video(entry) {
        to_multiset_build(video_paths(before), entry.path@);
    }
    to_multiset_len(video_paths(after));
    to_multiset_len(video_paths(before.push(entry)));
}

/// A file is a video whenever its name is any bytes, one at least, and `.mp4` behind
/// them, whatever those bytes are, and only then.
pub proof fn law_any_mp4_file_is_a_video(entry: DirEntry)
    ensures
        is_video(entry) <==> entry.is_file && exists|stem: Seq<u8>|
            stem.len() > 0 && entry.file_name@
                == #[trigger] stem.push(0x2eu8).push(0x6du8).push(0x70u8).push(0x34u8),
{
    let dot_mp4 = seq![0x2eu8, 0x6du8, 0x70u8, 0x34u8];
    let name = entry.file_name@;
    if is_video(entry) {
        let stem = name.take(name.len() - 4);
        assert(name =~= stem.push(0x2eu8).push(0x6du8).push(0x70u8).push(0x34u8));
    }
    assert forall|stem: Seq<u8>|
        stem.len() > 0 && name
            == #[trigger] stem.push(0x2eu8).push(0x6du8).push(0x70u8).push(0x34u8) implies has_mp4_extension(name) by {
        assert(name.skip(name.len() - 4) =~= dot_mp4);
    }
}

/// The list of videos has the path of each file whose name ends in `.mp4` after
/// something else, has no other path, and has each as often as it is there: nothing
/// is listed of nothing, and one entry more makes it longer by the path of the entry
/// or leaves it as it is.
pub proof fn law_every_video_is_listed(entries: Seq<DirEntry>, stem: Seq<u8>, at: int)
    requires
        0 <= at < entries.len(),
        entries[at].is_file,
        stem.len() > 0,
        entries[at].file_name@ == stem.push(0x2eu8).push(0x6du8).push(0x70u8).push(0x34u8),
    ensures
        video_paths(entries).contains(entries[at].path@),
        video_paths(entries).len() == video_paths(entries.remove(at)).len() + 1,
        video_paths(entries.take(at)).len() < video_paths(entries).len(),
        video_paths(entries)[video_paths(entries.take(at)).len() as int] == entries[at].path@,
        video_paths(Seq::<DirEntry>::empty()).len() == 0,
{
    law_any_mp4_file_is_a_video(entries[at]);
    let front = entries.take(at);
    let back = entries.skip(at + 1);
    reveal(Seq::filter);
    assert(entries =~= front.push(entries[at]) + back);
    assert(entries.remove(at) =~= front + back);
    lemma_paths_concat(front.push(entries[at]), back);
    lemma_paths_concat(front, back);
    law_listing_grows(front, entries[at]);
    let place = video_paths(front).len() as int;
    assert(video_paths(entries)[place] == entries[at].path@);
}

/// Each listed path is that of a file whose name ends in `.mp4` after something else.
pub proof fn law_only_videos_are_listed(entries: Seq<DirEntry>, path: Seq<char>)
    requires
        video_paths(entries).contains(path),
    ensures
        exists|at: int, stem: Seq<u8>|
            {
                &&& 0 <= at < entries.len()
                &&& (#[trigger] entries[at]).is_file
                &&& entries[at].path@ == path
                &&& stem.len() > 0
                &&& entries[at].file_name@
                    == #[trigger] stem.push(0x2eu8).push(0x6du8).push(0x70u8).push(0x34u8)
            },
    decreases entries.len(),
{
    reveal(Seq::filter);
    if entries.len() > 0 {
        let front = entries.drop_last();
        assert(front.push(entries.last()) =~= entries);
        law_listing_grows(front, entries.last());
        let j = choose|j: int| 0 <= j < video_paths(entries).len() && video_paths(entries)[j] == path;
        if j < video_paths(front).len() {
            assert(video_paths(front)[j] == path);
            law_only_videos_are_listed(front, path);
            let (at, stem) = choose|at: int, stem: Seq<u8>|
                {
                    &&& 0 <= at < front.len()
                    &&& (#[trigger] front[at]).is_file
                    &&& front[at].path@ == path
                    &&& stem.len() > 0
                    &&& front[at].file_name@
                        == #[trigger] stem.push(0x2eu8).push(0x6du8).push(0x70u8).push(0x34u8)
                };
            assert(entries[at] == front[at]);
        } else {
            law_any_mp4_file_is_a_video(entries.last());
            assert(entries[entries.len() - 1] == entries.last());
        }
    }
}

/// The name of a stored video is the whole base name, an underscore, the digits of the
/// number and `.mp4`.
pub proof fn law_stored_name_in_characters(base_name: Seq<char>, number: nat)
    ensures
        ({
            let name = stored_name(base_name, number);
            let front = base_name.len() as int;
            &&& name.len() == front + 1 + decimal(number).len() + 4
            &&& name.take(front) == base_name
            &&& name[front] == '_'
            &&& name.subrange(front + 1, name.len() - 4) == decimal(number)
            &&& name.skip(name.len() - 4) == ".mp4"@
        }),
{
    reveal_strlit("_");
    reveal_strlit(".mp4");
    let name = stored_name(base_name, number);
    let front = base_name.len() as int;
    assert(name.take(front) =~= base_name);
    assert(name.subrange(front + 1, name.len() - 4) =~= decimal(number));
    assert(name.skip(name.len() - 4) =~= ".mp4"@);
}

proof fn lemma_named(entry: DirEntry, part: Seq<char>)
    requires
        part.len() > 0,
    ensures
        entry.file_name@ == encode_utf8("user_"@ + part + ".mp4"@) <==> valid_utf8(
            entry.file_name@,
        ) && user_part(decode_utf8(entry.file_name@)) == Some(part),
{
    reveal_strlit("user_");
    reveal_strlit(".mp4");
    let name = "user_"@ + part + ".mp4"@;
    if entry.file_name@ == encode_utf8(name) {
        encode_utf8_valid_utf8(name);
        encode_utf8_decode_utf8(name);
        assert(name.take(5) =~= seq!['u', 's', 'e', 'r', '_']);
        assert(name.skip(name.len() - 4) =~= seq!['.', 'm', 'p', '4']);
        assert(name.subrange(5, name.len() - 4) =~= part);
    }
    if valid_utf8(entry.file_name@) && user_part(decode_utf8(entry.file_name@)) == Some(part) {
        let text = decode_utf8(entry.file_name@);
        decode_utf8_encode_utf8(entry.file_name@);
        assert(text.take(5) == seq!['u', 's', 'e', 'r', '_']);
        assert(text.skip(text.len() - 4) == seq!['.', 'm', 'p', '4']);
        assert(text =~= text.take(5) + text.subrange(5, text.len() - 4) + text.skip(
            text.len() - 4,
        ));
        assert(text.take(5) =~= "user_"@);
        assert(text.skip(text.len() - 4) =~= ".mp4"@);
    }
}

proof fn lemma_stored_names_differ(base_name: Seq<char>, one: nat, other: nat)
    requires
        stored_name(base_name, one) == stored_name(base_name, other),
    ensures
        one == other,
{
    law_stored_name_in_characters(base_name, one);
    law_stored_name_in_characters(base_name, other);
    let max = one + other;
    text::law_number_read_back(one, max);
    text::law_number_read_back(other, max);
}

/// The name that is given is the base name, an underscore, the digits of a number of
/// four bytes and `.mp4`.
pub proof fn law_next_name_is_numbered(
    entries: Seq<DirEntry>,
    base_name: Seq<char>,
    name: Seq<char>,
)
    requires
        has_free_number(entries),
        names_next(entries, base_name, Ok(name)),
    ensures
        exists|k: nat|
            k <= u32::MAX && name == base_name + "_"@ + #[trigger] decimal(k) + ".mp4"@,
{
    let numbers = numbers_of(entries)->Ok_0;
    lemma_free_number_is_missing(
        entries,
        numbers,
        choose|number: u32| is_free(entries, number),
    );
    assert(name == base_name + "_"@ + decimal(least_missing(numbers)) + ".mp4"@);
}

/// The name that is given fills the first gap among the names of the files: no file is
/// named `user_`, digits of the value of its number and `.mp4`, and for each smaller
/// number some file is. The number of every file that is named with digits can be
/// read.
pub proof fn law_next_name_fills_the_first_gap(
    entries: Seq<DirEntry>,
    base_name: Seq<char>,
    name: Seq<char>,
    k: nat,
    n: nat,
)
    requires
        has_free_number(entries),
        names_next(entries, base_name, Ok(name)),
        name == base_name + "_"@ + decimal(k) + ".mp4"@,
    ensures
        forall|i: int, digits: Seq<char>|
            0 <= i < entries.len() && (#[trigger] entries[i]).is_file && entries[i].file_name@
                == #[trigger] encode_utf8("user_"@ + digits + ".mp4"@) && digits.len() > 0 && (
            forall|j: int| 0 <= j < digits.len() ==> '0' <= #[trigger] digits[j] <= '9')
                ==> number_value(digits, u32::MAX as nat) is Ok && number_value(
                digits,
                u32::MAX as nat,
            ) != Ok::<nat, NumberError>(k),
        n < k ==> exists|i: int, digits: Seq<char>|
            {
                &&& 0 <= i < entries.len()
                &&& (#[trigger] entries[i]).is_file
                &&& entries[i].file_name@ == #[trigger] encode_utf8("user_"@ + digits + ".mp4"@)
                &&& digits.len() > 0
                &&& forall|j: int| 0 <= j < digits.len() ==> '0' <= #[trigger] digits[j] <= '9'
                &&& number_value(digits, u32::MAX as nat) == Ok::<nat, NumberError>(n)
            },
{
    let numbers = numbers_of(entries)->Ok_0;
    let max = u32::MAX as nat;
    lemma_stored_names_differ(base_name, k, least_missing(numbers));
    lemma_free_number_is_missing(
        entries,
        numbers,
        choose|number: u32| is_free(entries, number),
    );
    lemma_numbers_of(entries);
    law_least_missing(numbers);
    assert forall|i: int, digits: Seq<char>|
        0 <= i < entries.len() && (#[trigger] entries[i]).is_file && entries[i].file_name@
            == #[trigger] encode_utf8("user_"@ + digits + ".mp4"@) && digits.len() > 0 && (forall|
            j: int,
        |
            0 <= j < digits.len() ==> '0' <= #[trigger] digits[j] <= '9') implies number_value(
        digits,
        max,
    ) is Ok && number_value(digits, max) != Ok::<nat, NumberError>(k) by {
        lemma_named(entries[i], digits);
        assert(number_shows(entries[i]));
        assert(all_digits(digits));
        assert(entry_number(entries[i]) == Some(number_value(digits, max)));
    }
    if n < k {
        assert(numbers.contains(n as u32));
        let i = choose|i: int|
            0 <= i < entries.len() && entry_number(#[trigger] entries[i]) == Some(
                Ok::<nat, NumberError>(n),
            );
        assert(number_shows(entries[i]));
        let digits = user_part(decode_utf8(entries[i].file_name@))->Some_0;
        assert(digits[0] != '+');
        text::law_number_has_digits(digits, max);
        lemma_named(entries[i], digits);
        assert forall|j: int| 0 <= j < digits.len() implies '0' <= #[trigger] digits[j] <= '9' by {
            assert(is_digit(digits[j]));
        }
        assert(entries[i].file_name@ == encode_utf8("user_"@ + digits + ".mp4"@));
    }
}

/// No name is given only if some file is named `user_`, something from which no number
/// can be read, for the given reason, and `.mp4`.
pub proof fn law_no_name_for_a_reason(
    entries: Seq<DirEntry>,
    base_name: Seq<char>,
    error: NumberError,
)
    requires
        names_next(entries, base_name, Err(error)),
    ensures
        exists|i: int, part: Seq<char>|
            {
                &&& 0 <= i < entries.len()
                &&& (#[trigger] entries[i]).is_file
                &&& part.len() > 0
                &&& entries[i].file_name@ == #[trigger] encode_utf8("user_"@ + part + ".mp4"@)
                &&& number_value(part, u32::MAX as nat) == Err::<nat, NumberError>(error)
            },
{
    let at = choose|at: int|
        {
            &&& 0 <= at < entries.len()
            &&& entry_number(#[trigger] entries[at]) == Some(Err::<nat, NumberError>(error))
            &&& forall|i: int| 0 <= i <= at ==> number_shows(#[trigger] entries[i])
        };
    assert(number_shows(entries[at]));
    let part = user_part(decode_utf8(entries[at].file_name@))->Some_0;
    lemma_named(entries[at], part);
    assert(entries[at].file_name@ == encode_utf8("user_"@ + part + ".mp4"@));
}

/// The numbers follow the names of the files, entry by entry: a file named `user_`,
/// digits and `.mp4` adds the value of the digits or is an error, an entry that is no
/// file or is named otherwise adds nothing, and an error stays.
pub proof fn law_numbers_follow_the_names(
    entries: Seq<DirEntry>,
    entry: DirEntry,
    digits: Seq<char>,
)
    requires
        number_shows(entry),
    ensures
        numbers_of(Seq::<DirEntry>::empty()) == Ok::<Seq<u32>, NumberError>(seq![]),
        numbers_of(entries) is Err ==> numbers_of(entries.push(entry)) == numbers_of(entries),
        numbers_of(entries) is Ok && entry.is_file && digits.len() > 0 && entry.file_name@
            == encode_utf8("user_"@ + digits + ".mp4"@) && (forall|j: int|
            0 <= j < digits.len() ==> '0' <= #[trigger] digits[j] <= '9') ==> numbers_of(
            entries.push(entry),
        ) == match number_value(digits, u32::MAX as nat) {
            Ok(number) => Ok::<Seq<u32>, NumberError>(
                numbers_of(entries)->Ok_0.push(number as u32),
            ),
            Err(error) => Err(error),
        },
        numbers_of(entries) is Ok && (!entry.is_file || forall|part: Seq<char>|
            part.len() > 0 ==> entry.file_name@ != #[trigger] encode_utf8(
                "user_"@ + part + ".mp4"@,
            )) ==> numbers_of(entries.push(entry)) == numbers_of(entries),
{
    assert(entries.push(entry).drop_last() =~= entries);
    assert(entries.push(entry).last() == entry);
    if digits.len() > 0 {
        lemma_named(entry, digits);
        if forall|j: int| 0 <= j < digits.len() ==> '0' <= #[trigger] digits[j] <= '9' {
            assert(all_digits(digits));
        }
    }
    if entry.is_file && valid_utf8(entry.file_name@) {
        if let Some(part) = user_part(decode_utf8(entry.file_name@)) {
            lemma_named(entry, part);
        }
    }
}

} // verus!
