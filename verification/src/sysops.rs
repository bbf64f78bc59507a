//! The computing halves of the system-facing commands: what the maintenance
//! commands report, the argument lists handed to the container tool, the
//! whitespace splitting of a command line, and the unit arithmetic of the
//! stats panel. The processes themselves run outside the library.
use vstd::prelude::*;

verus! {

/// The fixed text returned when a cache clean is requested; the application
/// performs no real cleaning, it only reports success.
pub fn clean_cache_message() -> (r: String)
    ensures
        r@ == "Cache cleaned successfully"@,
{
    String::from_str("Cache cleaned successfully")
}

/// The fixed text returned when a memory optimisation is requested.
pub fn optimize_memory_message() -> (r: String)
    ensures
        r@ == "Memory optimized successfully"@,
{
    String::from_str("Memory optimized successfully")
}

/// The argument list that asks the container tool for every container as
/// JSON.
pub fn container_list_args() -> (r: Vec<String>)
    ensures
        r@.len() == 4,
        r@[0]@ == "ps"@,
        r@[1]@ == "-a"@,
        r@[2]@ == "--format"@,
        r@[3]@ == "json"@,
{
    let mut v: Vec<String> = Vec::new();
    v.push(String::from_str("ps"));
    v.push(String::from_str("-a"));
    v.push(String::from_str("--format"));
    v.push(String::from_str("json"));
    v
}

/// The argument list for one lifecycle action on one container.
pub fn container_action_args(action: &str, id: &str) -> (r: Vec<String>)
    ensures
        r@.len() == 2,
        r@[0]@ == action@,
        r@[1]@ == id@,
{
    let mut v: Vec<String> = Vec::new();
    v.push(action.to_owned());
    v.push(id.to_owned());
    v
}

/// The text reported after a container action went through.
pub fn container_action_message(id: &str, action: &str) -> (r: String)
    ensures
        r@ == "Container "@ + id@ + " "@ + action@ + " successfully"@,
{
    let mut s = String::from_str("Container ");
    s.append(id);
    s.append(" ");
    s.append(action);
    s.append(" successfully");
    s
}

/// A whitespace character in Unicode's sense (the White_Space property),
/// which is what the command splitter separates words on.
pub open spec fn is_space(c: char) -> bool {
    ||| ('\u{9}' <= c && c <= '\u{d}')
    ||| c == ' '
    ||| c == '\u{85}'
    ||| c == '\u{a0}'
    ||| c == '\u{1680}'
    ||| ('\u{2000}' <= c && c <= '\u{200a}')
    ||| c == '\u{2028}'
    ||| c == '\u{2029}'
    ||| c == '\u{202f}'
    ||| c == '\u{205f}'
    ||| c == '\u{3000}'
}

/// Tests `is_space`.
fn is_space_exec(c: char) -> (r: bool)
    ensures
        r == is_space(c),
{
    ('\u{9}' <= c && c <= '\u{d}') || c == ' ' || c == '\u{85}' || c == '\u{a0}'
        || c == '\u{1680}' || ('\u{2000}' <= c && c <= '\u{200a}') || c == '\u{2028}'
        || c == '\u{2029}' || c == '\u{202f}' || c == '\u{205f}' || c == '\u{3000}'
}

/// The whitespace-split scan, one character at a time: `cur` is the word
/// being gathered and `acc` the words already closed.
pub open spec fn tokens_from(s: Seq<char>, i: int, cur: Seq<char>, acc: Seq<Seq<char>>) -> Seq<
    Seq<char>,
>
    decreases s.len() - i,
{
    if i < 0 || i >= s.len() {
        if cur.len() == 0 {
            acc
        } else {
            acc.push(cur)
        }
    } else if is_space(s[i]) {
        if cur.len() == 0 {
            tokens_from(s, i + 1, Seq::empty(), acc)
        } else {
            tokens_from(s, i + 1, Seq::empty(), acc.push(cur))
        }
    } else {
        tokens_from(s, i + 1, cur.push(s[i]), acc)
    }
}

/// The whitespace-separated words of `s`, in order; runs of whitespace
/// separate like single spaces, and no quoting is understood.
pub open spec fn tokens_of(s: Seq<char>) -> Seq<Seq<char>> {
    tokens_from(s, 0, Seq::empty(), Seq::empty())
}

/// Splits a text into its whitespace-separated words.
pub fn tokenize(s: &str) -> (r: Vec<String>)
    ensures
        r.deep_view() == tokens_of(s@),
{
    let n = s.unicode_len();
    let mut out: Vec<String> = Vec::new();
    let mut cur: Vec<char> = Vec::new();
    let mut i: usize = 0;
    proof {
        assert(out.deep_view() =~= Seq::<Seq<char>>::empty());
        assert(cur@ =~= Seq::<char>::empty());
    }
    while i < n
        invariant
            n == s@.len(),
            i <= n,
            tokens_of(s@) == tokens_from(s@, i as int, cur@, out.deep_view()),
        decreases n - i,
    {
        let ghost gcur = cur@;
        let ghost gout = out.deep_view();
        let c = s.get_char(i);
        if is_space_exec(c) {
            if cur.len() > 0 {
                out.push(crate::textutil::chars_to_string(&cur));
                cur = Vec::new();
                proof {
                    assert(out.deep_view() =~= gout.push(gcur));
                    assert(cur@ =~= Seq::<char>::empty());
                    assert(tokens_from(s@, i as int, gcur, gout) == tokens_from(
                        s@,
                        i + 1 as int,
                        Seq::empty(),
                        gout.push(gcur),
                    ));
                }
            } else {
                proof {
                    assert(gcur =~= Seq::<char>::empty());
                    assert(tokens_from(s@, i as int, gcur, gout) == tokens_from(
                        s@,
                        i + 1 as int,
                        Seq::empty(),
                        gout,
                    ));
                }
            }
        } else {
            cur.push(c);
            proof {
                assert(cur@ =~= gcur.push(s@[i as int]));
                assert(tokens_from(s@, i as int, gcur, gout) == tokens_from(
                    s@,
                    i + 1 as int,
                    gcur.push(s@[i as int]),
                    gout,
                ));
            }
        }
        i = i + 1;
    }
    let ghost gcur = cur@;
    let ghost gout = out.deep_view();
    if cur.len() > 0 {
        out.push(crate::textutil::chars_to_string(&cur));
        proof {
            assert(out.deep_view() =~= gout.push(gcur));
            assert(tokens_from(s@, n as int, gcur, gout) == gout.push(gcur));
        }
    } else {
        proof {
            assert(tokens_from(s@, n as int, gcur, gout) == gout);
        }
    }
    out
}

/// Splits a command line into the program and its arguments: `None` exactly
/// where the line holds no word at all.
pub fn split_command(command: &str) -> (r: Option<(String, Vec<String>)>)
    ensures
        match r {
            Some(pair) => {
                &&& tokens_of(command@).len() > 0
                &&& pair.0@ == tokens_of(command@)[0]
                &&& pair.1.deep_view() == tokens_of(command@).drop_first()
            },
            None => tokens_of(command@).len() == 0,
        },
{
    let mut words = tokenize(command);
    if words.len() == 0 {
        return None;
    }
    let mut args: Vec<String> = Vec::new();
    let m = words.len();
    let mut i: usize = 1;
    while i < m
        invariant
            m == words@.len(),
            1 <= i <= m,
            args.deep_view() =~= words.deep_view().subrange(1, i as int),
        decreases m - i,
    {
        let ghost prev = args.deep_view();
        args.push(words[i].clone());
        proof {
            assert(args.deep_view() =~= prev.push(words@[i as int]@));
        }
        i = i + 1;
    }
    let program = words.remove(0);
    proof {
        assert(args.deep_view() =~= tokens_of(command@).drop_first());
    }
    Some((program, args))
}

/// `x` squeezed into the 64-bit range.
pub open spec fn sat64(x: int) -> int {
    if x > u64::MAX {
        u64::MAX as int
    } else {
        x
    }
}

/// The summed size of the disks, in bytes.
pub open spec fn sum_disk_total(disks: Seq<(u64, u64)>) -> int
    decreases disks.len(),
{
    if disks.len() == 0 {
        0
    } else {
        sum_disk_total(disks.drop_last()) + disks.last().0
    }
}

/// The summed used share of the disks — each disk's size less what is still
/// available, a disk reporting more available than its size counting zero.
pub open spec fn sum_disk_used(disks: Seq<(u64, u64)>) -> int
    decreases disks.len(),
{
    if disks.len() == 0 {
        0
    } else {
        sum_disk_used(disks.drop_last()) + (
        if disks.last().1 <= disks.last().0 {
            disks.last().0 - disks.last().1
        } else {
            0
        })
    }
}

/// Aggregates the disks of a stats snapshot: each pair is one disk's size
/// and its still-available share, in bytes; the result is the total size and
/// the total used share, each saturating at the top of the range.
pub fn disk_totals(disks: &Vec<(u64, u64)>) -> (r: (u64, u64))
    ensures
        r.0 == sat64(sum_disk_total(disks@)),
        r.1 == sat64(sum_disk_used(disks@)),
{
    let n = disks.len();
    let mut total: u64 = 0;
    let mut used: u64 = 0;
    let mut i: usize = 0;
    proof {
        assert(disks@.take(0) =~= Seq::<(u64, u64)>::empty());
    }
    while i < n
        invariant
            n == disks@.len(),
            i <= n,
            total == sat64(sum_disk_total(disks@.take(i as int))),
            used == sat64(sum_disk_used(disks@.take(i as int))),
        decreases n - i,
    {
        proof {
            assert(disks@.take(i + 1 as int).drop_last() =~= disks@.take(i as int));
            assert(disks@.take(i + 1 as int).last() == disks@[i as int]);
        }
        let (size, avail) = (disks[i].0, disks[i].1);
        total = total.saturating_add(size);
        used = used.saturating_add(size.saturating_sub(avail));
        i = i + 1;
    }
    proof {
        assert(disks@.take(n as int) =~= disks@);
    }
    (total, used)
}

/// Bytes expressed in whole binary megabytes, as the stats panel reports
/// memory sizes.
pub fn bytes_to_mb(bytes: u64) -> (r: u64)
    ensures
        r == bytes / 1048576,
{
    bytes / 1048576
}

/// Bytes expressed in whole binary gigabytes, as the stats panel reports
/// disk sizes.
pub fn bytes_to_gb(bytes: u64) -> (r: u64)
    ensures
        r == bytes / 1073741824,
{
    bytes / 1073741824
}

} // verus!
