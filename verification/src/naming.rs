//! Destination names: a zero-padded position, then the original name or its
//! extension.

use vstd::prelude::*;
use crate::listing::texts;
use crate::text::{all_digits, is_digit, lemma_zero_padded_value, zero_padded, zero_padded_string};
use crate::paths::{base_name, extension, file_extension, file_name};

verus! {

/// What follows the position in a destination name: an underscore and the
/// base name of `path`, or else the extension of `path` with its dot, which
/// is nothing where `path` has no extension.
pub open spec fn name_suffix(path: Seq<char>, include_original_name: bool) -> Seq<char> {
    if include_original_name {
        seq!['_'] + base_name(path)
    } else {
        match extension(path) {
            Some(e) => seq!['.'] + e,
            None => Seq::empty(),
        }
    }
}

/// The destination name of the file `path` that stands at `position`
/// (counted from 1) in the listing: the position, padded with zeros to
/// `width` characters, and the suffix.
pub open spec fn new_name(
    path: Seq<char>,
    position: nat,
    width: nat,
    include_original_name: bool,
) -> Seq<char> {
    zero_padded(position, width) + name_suffix(path, include_original_name)
}

/// The destination names of `files`, in the same order: each file is named
/// after its position, counted from 1.
pub open spec fn name_plan(
    files: Seq<Seq<char>>,
    width: nat,
    include_original_name: bool,
) -> Seq<Seq<char>> {
    Seq::new(
        files.len(),
        |i: int| new_name(files[i], (i + 1) as nat, width, include_original_name),
    )
}

/// The destination name of one file.
pub fn name_for(path: &str, position: usize, width: usize, include_original_name: bool) -> (r:
    String)
    ensures
        r@ == new_name(path@, position as nat, width as nat, include_original_name),
{
    proof {
        reveal_strlit("_");
        reveal_strlit(".");
    }
    let mut out = zero_padded_string(position, width);
    if include_original_name {
        let name = file_name(path);
        out.append("_");
        out.append(name.as_str());
        assert(out@ =~= new_name(path@, position as nat, width as nat, include_original_name));
    } else {
        match file_extension(path) {
            Some(e) => {
                out.append(".");
                out.append(e.as_str());
                assert(out@ =~= new_name(
                    path@,
                    position as nat,
                    width as nat,
                    include_original_name,
                ));
            },
            None => {
                assert(out@ =~= new_name(
                    path@,
                    position as nat,
                    width as nat,
                    include_original_name,
                ));
            },
        }
    }
    out
}

/// Names every file of the listing after its position in it.
pub fn rename_files_with_leading_zeros(
    files: &[String],
    padding_zeros: usize,
    include_original_name: bool,
) -> (names: Vec<String>)
    ensures
        texts(names@) == name_plan(texts(files@), padding_zeros as nat, include_original_name),
{
    let mut names: Vec<String> = Vec::new();
    let mut i: usize = 0;
    while i < files.len()
        invariant
            i <= files@.len(),
            names@.len() == i,
            forall|j: int|
                0 <= j < i ==> (#[trigger] names@[j])@ == new_name(
                    files@[j]@,
                    (j + 1) as nat,
                    padding_zeros as nat,
                    include_original_name,
                ),
        decreases files@.len() - i,
    {
        let name = name_for(files[i].as_str(), i + 1, padding_zeros, include_original_name);
        names.push(name);
        i += 1;
    }
    assert(texts(names@) =~= name_plan(
        texts(files@),
        padding_zeros as nat,
        include_original_name,
    ));
    names
}

/// Naming depends on nothing but the files, the width and the choice: two
/// name lists made for the same files are the same list.
pub proof fn lemma_naming_is_repeatable(
    files: Seq<String>,
    again: Seq<String>,
    width: nat,
    include_original_name: bool,
    first: Seq<String>,
    second: Seq<String>,
)
    requires
        texts(files) == texts(again),
        texts(first) == name_plan(texts(files), width, include_original_name),
        texts(second) == name_plan(texts(again), width, include_original_name),
    ensures
        texts(first) == texts(second),
{
}

/// Two runs of digits, each followed by nothing or by something that is no
/// digit, are the same run if the two wholes are the same.
pub proof fn lemma_digit_prefix(a: Seq<char>, after_a: Seq<char>, b: Seq<char>, after_b: Seq<char>)
    requires
        all_digits(a),
        all_digits(b),
        after_a.len() == 0 || !is_digit(after_a[0]),
        after_b.len() == 0 || !is_digit(after_b[0]),
        a + after_a == b + after_b,
    ensures
        a == b,
{
    let whole = a + after_a;
    let other = b + after_b;
    if a.len() < b.len() {
        assert(other[a.len() as int] == b[a.len() as int]);
        if after_a.len() > 0 {
            assert(whole[a.len() as int] == after_a[0]);
        } else {
            assert(whole.len() == a.len());
        }
    } else if b.len() < a.len() {
        assert(whole[b.len() as int] == a[b.len() as int]);
        if after_b.len() > 0 {
            assert(other[b.len() as int] == after_b[0]);
        } else {
            assert(other.len() == b.len());
        }
    } else {
        assert forall|k: int| 0 <= k < a.len() implies a[k] == b[k] by {
            assert(whole[k] == a[k]);
            assert(other[k] == b[k]);
        }
        assert(a =~= b);
    }
}

/// Files at different positions get different names, whatever they are
/// called: the position at the front tells them apart.
pub proof fn lemma_names_differ(
    first: Seq<char>,
    second: Seq<char>,
    i: nat,
    j: nat,
    width: nat,
    include_original_name: bool,
)
    requires
        i != j,
    ensures
        new_name(first, i, width, include_original_name) != new_name(
            second,
            j,
            width,
            include_original_name,
        ),
{
    let a = zero_padded(i, width);
    let b = zero_padded(j, width);
    lemma_zero_padded_value(i, width);
    lemma_zero_padded_value(j, width);
    if new_name(first, i, width, include_original_name) == new_name(
        second,
        j,
        width,
        include_original_name,
    ) {
        lemma_digit_prefix(
            a,
            name_suffix(first, include_original_name),
            b,
            name_suffix(second, include_original_name),
        );
    }
}

/// In a name plan no name occurs twice, even where two files have the same
/// base name.
pub proof fn lemma_name_plan_has_no_duplicates(
    files: Seq<Seq<char>>,
    width: nat,
    include_original_name: bool,
)
    ensures
        name_plan(files, width, include_original_name).len() == files.len(),
        name_plan(files, width, include_original_name).no_duplicates(),
{
    let names = name_plan(files, width, include_original_name);
    assert forall|i: int, j: int|
        0 <= i < names.len() && 0 <= j < names.len() && i != j implies names[i] != names[j] by {
        lemma_names_differ(
            files[i],
            files[j],
            (i + 1) as nat,
            (j + 1) as nat,
            width,
            include_original_name,
        );
    }
}

} // verus!
