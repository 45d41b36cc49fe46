//! The compute slice of store initialization: choosing the database
//! location, and reading out of its URI the directory that has to exist
//! before the database file can be created.

use vstd::prelude::*;

verus! {

/// The last index at which the character occurs in the sequence.
pub open spec fn rfind_char(s: Seq<char>, c: char) -> Option<int>
    decreases s.len(),
{
    if s.len() == 0 {
        None
    } else if s[s.len() - 1] == c {
        Some(s.len() - 1)
    } else {
        rfind_char(s.drop_last(), c)
    }
}

proof fn lemma_rfind_in_range(s: Seq<char>, c: char)
    ensures
        match rfind_char(s, c) {
            Some(i) => 0 <= i < s.len() && s[i] == c,
            None => true,
        },
    decreases s.len(),
{
    if s.len() > 0 && s[s.len() - 1] != c {
        lemma_rfind_in_range(s.drop_last(), c);
    }
}

proof fn lemma_rfind_skip(s: Seq<char>, c: char, i: int)
    requires
        0 <= i <= s.len(),
        forall|j: int| i <= j < s.len() ==> s[j] != c,
    ensures
        rfind_char(s, c) == rfind_char(s.subrange(0, i), c),
    decreases s.len(),
{
    if i == s.len() {
        assert(s.subrange(0, i) =~= s);
    } else {
        assert(s[s.len() - 1] != c);
        let d = s.drop_last();
        assert forall|j: int| i <= j < d.len() implies d[j] != c by {
            assert(d[j] == s[j]);
        }
        lemma_rfind_skip(d, c, i);
        assert(d.subrange(0, i) =~= s.subrange(0, i));
    }
}

/// Finds the last occurrence of a character, scanning from the end.
pub fn rfind(s: &str, c: char) -> (r: Option<usize>)
    ensures
        match r {
            Some(i) => rfind_char(s@, c) == Some(i as int),
            None => rfind_char(s@, c) is None,
        },
{
    let n = s.unicode_len();
    let mut i = n;
    while i > 0
        invariant
            n == s@.len(),
            i <= n,
            forall|j: int| i <= j < s@.len() ==> s@[j] != c,
        decreases i,
    {
        i = i - 1;
        let ch = s.get_char(i);
        if ch == c {
            proof {
                lemma_rfind_skip(s@, c, i as int + 1);
                let pre = s@.subrange(0, i as int + 1);
                assert(pre[pre.len() - 1] == s@[i as int]);
                assert(rfind_char(pre, c) == Some(i as int));
            }
            return Some(i);
        }
    }
    proof {
        lemma_rfind_skip(s@, c, 0);
        assert(s@.subrange(0, 0) =~= Seq::<char>::empty());
    }
    None
}

/// The directory part of a database URI: what stands between the last
/// colon and the last slash, when both are there and the part is
/// non-empty; otherwise there is no directory to create.
pub open spec fn dir_of_uri(s: Seq<char>) -> Option<Seq<char>> {
    match rfind_char(s, ':') {
        None => None,
        Some(ci) => {
            let path = s.subrange(ci + 1, s.len() as int);
            match rfind_char(path, '/') {
                None => None,
                Some(si) => {
                    let dir = path.subrange(0, si);
                    if dir.len() == 0 {
                        None
                    } else {
                        Some(dir)
                    }
                },
            }
        },
    }
}

/// The directory that has to exist for the database file a URI names,
/// read from the URI text.
pub fn db_dir_of_uri(uri: &str) -> (r: Option<String>)
    ensures
        match r {
            Some(d) => dir_of_uri(uri@) == Some(d@),
            None => dir_of_uri(uri@) is None,
        },
{
    let n = uri.unicode_len();
    match rfind(uri, ':') {
        None => None,
        Some(ci) => {
            proof {
                lemma_rfind_in_range(uri@, ':');
            }
            let path = uri.substring_char(ci + 1, n);
            match rfind(path, '/') {
                None => None,
                Some(si) => {
                    proof {
                        lemma_rfind_in_range(path@, '/');
                    }
                    let dir = path.substring_char(0, si);
                    if dir.unicode_len() == 0 {
                        None
                    } else {
                        Some(dir.to_owned())
                    }
                },
            }
        },
    }
}

/// The database URI the process uses: the command-line value when one was
/// given, else the environment value, else the fixed default location.
pub fn choose_db_uri(arg_uri: Option<String>, env_uri: Option<String>) -> (uri: String)
    ensures
        ({
            match arg_uri {
                Some(a) => uri@ == a@,
                None => match env_uri {
                    Some(e) => uri@ == e@,
                    None => uri@ == "sqlite:db/quotes.db"@,
                },
            }
        }),
{
    match arg_uri {
        Some(u) => u,
        None => match env_uri {
            Some(u) => u,
            None => String::from_str("sqlite:db/quotes.db"),
        },
    }
}

} // verus!
