//! The arguments and environment variables a guest starts with: those the
//! package declares, followed by those the caller adds.

use vstd::prelude::*;

verus! {

/// `name` and `value` are what an entry "name=value" splits into at its
/// first '='; an entry without '=' is a name with an empty value.
pub open spec fn splits_into(item: Seq<char>, name: Seq<char>, value: Seq<char>) -> bool {
    if item.contains('=') {
        !name.contains('=') && item == name + seq!['='] + value
    } else {
        name == item && value.len() == 0
    }
}

/// Splits a declared environment entry at its first '='.
pub fn split_env_entry(item: &str) -> (r: (String, String))
    ensures
        splits_into(item@, r.0@, r.1@),
{
    let n = item.unicode_len();
    let mut k: usize = 0;
    while k < n && item.get_char(k) != '='
        invariant
            k <= n,
            n == item@.len(),
            forall|j: int| 0 <= j < k ==> #[trigger] item@[j] != '=',
        decreases n - k,
    {
        k = k + 1;
    }
    if k == n {
        assert(!item@.contains('=')) by {
            if item@.contains('=') {
                let j = choose|j: int| 0 <= j < item@.len() && item@[j] == '=';
                assert(item@[j] != '=');
            }
        }
        let empty = String::new();
        (String::from_str(item), empty)
    } else {
        let name = String::from_str(item.substring_char(0, k));
        let value = String::from_str(item.substring_char(k + 1, n));
        assert(item@.contains('=')) by {
            assert(item@[k as int] == '=');
        }
        assert(!name@.contains('=')) by {
            if name@.contains('=') {
                let j = choose|j: int| 0 <= j < name@.len() && name@[j] == '=';
                assert(item@[j] == name@[j]);
            }
        }
        assert(item@ =~= name@ + seq!['='] + value@);
        (name, value)
    }
}

/// The environment a guest starts with: the package's declared entries,
/// split at their first '=' and in their order; then the forwarded
/// variables of the host; then the caller's own.
pub fn populate_env(
    declared: &Option<Vec<String>>,
    forwarded: &Vec<(String, String)>,
    user: &Vec<(String, String)>,
) -> (r: Vec<(String, String)>)
    ensures
        r@.len() == (match declared {
            Some(d) => d@.len(),
            None => 0,
        }) + forwarded@.len() + user@.len(),
        declared matches Some(d) ==> forall|i: int|
            0 <= i < d@.len() ==> splits_into(d@[i]@, (#[trigger] r@[i]).0@, r@[i].1@),
        ({
            let skip = match declared {
                Some(d) => d@.len() as int,
                None => 0,
            };
            r@.subrange(skip, r@.len() as int) == forwarded@ + user@
        }),
{
    let mut r: Vec<(String, String)> = Vec::new();
    match declared {
        Some(d) => {
            let mut i: usize = 0;
            while i < d.len()
                invariant
                    i <= d@.len(),
                    r@.len() == i,
                    forall|j: int| 0 <= j < i ==> splits_into(d@[j]@, (#[trigger] r@[j]).0@, r@[j].1@),
                decreases d@.len() - i,
            {
                let pair = split_env_entry(d[i].as_str());
                r.push(pair);
                i = i + 1;
            }
        },
        None => {},
    }
    let skip = r.len();
    append_pairs(&mut r, forwarded);
    append_pairs(&mut r, user);
    assert(r@.subrange(skip as int, r@.len() as int) =~= forwarded@ + user@);
    r
}

fn append_pairs(r: &mut Vec<(String, String)>, more: &Vec<(String, String)>)
    ensures
        final(r)@ == old(r)@ + more@,
{
    let mut i: usize = 0;
    while i < more.len()
        invariant
            i <= more@.len(),
            r@ == old(r)@ + more@.subrange(0, i as int),
        decreases more@.len() - i,
    {
        let pair = (more[i].0.clone(), more[i].1.clone());
        assert(pair == more@[i as int]);
        r.push(pair);
        assert(more@.subrange(0, i + 1) =~= more@.subrange(0, i as int).push(more@[i as int]));
        i = i + 1;
    }
    assert(more@.subrange(0, i as int) =~= more@);
}

/// The arguments a guest starts with: the program's name, the package's
/// declared main arguments, then the caller's.
pub fn populate_args(program: &str, declared: &Option<Vec<String>>, user: &Vec<String>) -> (r: Vec<String>)
    ensures
        r@.len() >= 1 && r@[0]@ == program@,
        ({
            let d = match declared {
                Some(d) => d@,
                None => Seq::empty(),
            };
            r@.subrange(1, r@.len() as int).map_values(|s: String| s@)
                == d.map_values(|s: String| s@) + user@.map_values(|s: String| s@)
        }),
{
    let mut r: Vec<String> = Vec::new();
    r.push(String::from_str(program));
    let ghost d = match declared {
        Some(d) => d@,
        None => Seq::<String>::empty(),
    };
    match declared {
        Some(d) => {
            append_strings(&mut r, d);
        },
        None => {},
    }
    assert(r@.subrange(1, r@.len() as int).map_values(|s: String| s@) =~= d.map_values(|s: String| s@));
    let ghost mid = r@;
    append_strings(&mut r, user);
    assert(r@.subrange(1, r@.len() as int) =~= mid.subrange(1, mid.len() as int) + r@.subrange(mid.len() as int, r@.len() as int));
    assert(r@.subrange(1, r@.len() as int).map_values(|s: String| s@) =~= d.map_values(|s: String| s@) + user@.map_values(|s: String| s@));
    r
}

fn append_strings(r: &mut Vec<String>, more: &Vec<String>)
    ensures
        final(r)@ == old(r)@ + more@,
{
    let mut i: usize = 0;
    while i < more.len()
        invariant
            i <= more@.len(),
            r@ == old(r)@ + more@.subrange(0, i as int),
        decreases more@.len() - i,
    {
        r.push(more[i].clone());
        assert(more@.subrange(0, i + 1) =~= more@.subrange(0, i as int).push(more@[i as int]));
        i = i + 1;
    }
    assert(more@.subrange(0, i as int) =~= more@);
}

} // verus!
