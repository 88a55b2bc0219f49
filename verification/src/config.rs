//! The Redis connection settings the API starts with.
use vstd::prelude::*;
use vstd::string::*;

use crate::text::{chars_of, string_of, trim_chars, trimmed};

verus! {

/// Settings of the Redis connection pool.
pub struct RedisSettings {
    pub host: String,
    pub port: u16,
    pub cluster_enabled: bool,
    pub cluster_urls: Vec<String>,
    pub use_legacy_version: bool,
    pub pool_size: u32,
    pub reconnect_max_attempts: u32,
    pub reconnect_delay_ms: u32,
    pub default_ttl_secs: u32,
    pub default_hash_ttl_secs: u32,
    pub stream_read_count: u32,
    pub partition: u32,
}

/// The pieces of `s` between the occurrences of `sep`, in order; a text with
/// `n` separators has `n + 1` pieces.
pub open spec fn split_on(s: Seq<char>, sep: char) -> Seq<Seq<char>>
    decreases s.len(),
{
    if s.len() == 0 {
        seq![Seq::<char>::empty()]
    } else {
        let head = split_on(s.drop_last(), sep);
        if s.last() == sep {
            head.push(Seq::<char>::empty())
        } else {
            head.update(head.len() - 1, head.last().push(s.last()))
        }
    }
}

/// The trimmed pieces that are not empty, in order.
pub open spec fn nonblank_trimmed(pieces: Seq<Seq<char>>) -> Seq<Seq<char>>
    decreases pieces.len(),
{
    if pieces.len() == 0 {
        Seq::<Seq<char>>::empty()
    } else {
        let rest = nonblank_trimmed(pieces.drop_last());
        if trimmed(pieces.last()).len() > 0 {
            rest.push(trimmed(pieces.last()))
        } else {
            rest
        }
    }
}

/// The cluster node URLs listed in a comma-separated text: each entry
/// trimmed, empty entries dropped.
pub open spec fn cluster_url_list(csv: Seq<char>) -> Seq<Seq<char>> {
    nonblank_trimmed(split_on(csv, ','))
}

proof fn lemma_split_nonempty(s: Seq<char>, sep: char)
    ensures
        split_on(s, sep).len() >= 1,
    decreases s.len(),
{
    if s.len() > 0 {
        lemma_split_nonempty(s.drop_last(), sep);
    }
}

/// The URLs of a comma-separated list, trimmed, without empty entries.
pub fn parse_cluster_urls(csv: &str) -> (urls: Vec<String>)
    ensures
        urls@.map_values(|u: String| u@) == cluster_url_list(csv@),
{
    let chars = chars_of(csv);
    let mut urls: Vec<String> = Vec::new();
    let mut piece: Vec<char> = Vec::new();
    let mut i: usize = 0;
    proof {
        assert(chars@.subrange(0, 0) =~= Seq::<char>::empty());
    }
    while i < chars.len()
        invariant
            i <= chars@.len(),
            chars@ == csv@,
            split_on(chars@.subrange(0, i as int), ',').len() >= 1,
            piece@ == split_on(chars@.subrange(0, i as int), ',').last(),
            urls@.map_values(|u: String| u@) == nonblank_trimmed(
                split_on(chars@.subrange(0, i as int), ',').drop_last(),
            ),
        decreases chars@.len() - i,
    {
        let c = chars[i];
        let ghost before = chars@.subrange(0, i as int);
        let ghost after = chars@.subrange(0, i + 1);
        proof {
            assert(after.drop_last() =~= before);
            assert(after.last() == c);
            lemma_split_nonempty(before, ',');
        }
        if c == ',' {
            let t = trim_chars(piece.as_slice());
            let ghost old_urls = urls@;
            if t.len() > 0 {
                urls.push(string_of(t.as_slice()));
            }
            proof {
                let pieces = split_on(before, ',');
                assert(split_on(after, ',') == pieces.push(Seq::<char>::empty()));
                assert(split_on(after, ',').drop_last() =~= pieces);
                assert(pieces.drop_last().push(pieces.last()) =~= pieces);
                assert(urls@.map_values(|u: String| u@) =~= nonblank_trimmed(pieces));
            }
            piece = Vec::new();
        } else {
            piece.push(c);
            proof {
                let pieces = split_on(before, ',');
                assert(split_on(after, ',') == pieces.update(
                    pieces.len() - 1,
                    pieces.last().push(c),
                ));
                assert(split_on(after, ',').drop_last() =~= pieces.drop_last());
            }
        }
        i = i + 1;
    }
    let t = trim_chars(piece.as_slice());
    if t.len() > 0 {
        urls.push(string_of(t.as_slice()));
    }
    proof {
        let pieces = split_on(chars@.subrange(0, i as int), ',');
        assert(chars@.subrange(0, i as int) =~= csv@);
        assert(pieces.drop_last().push(pieces.last()) =~= pieces);
        assert(urls@.map_values(|u: String| u@) =~= cluster_url_list(csv@));
    }
    urls
}

/// The Redis settings for one environment: a standalone server on
/// `localhost:6379` in development; elsewhere the configured host, port and
/// cluster mode, with the cluster nodes listed in `cluster_urls_csv`. Both
/// use a pool of 50 connections, 10 reconnection attempts 5000 ms apart,
/// one-hour default lifetimes, reads of 100 stream entries and partition 0.
pub fn redis_settings(
    is_dev: bool,
    host: &str,
    port: u16,
    cluster_enabled: bool,
    cluster_urls_csv: &str,
) -> (s: RedisSettings)
    ensures
        is_dev ==> s.host@ == "localhost"@ && s.port == 6379 && !s.cluster_enabled
            && s.cluster_urls@.len() == 0,
        !is_dev ==> s.host@ == host@ && s.port == port && s.cluster_enabled == cluster_enabled
            && s.cluster_urls@.map_values(|u: String| u@) == cluster_url_list(cluster_urls_csv@),
        !s.use_legacy_version,
        s.pool_size == 50,
        s.reconnect_max_attempts == 10,
        s.reconnect_delay_ms == 5000,
        s.default_ttl_secs == 3600,
        s.default_hash_ttl_secs == 3600,
        s.stream_read_count == 100,
        s.partition == 0,
{
    let (h, p, c, urls) = if is_dev {
        (String::from_str("localhost"), 6379u16, false, Vec::new())
    } else {
        (String::from_str(host), port, cluster_enabled, parse_cluster_urls(cluster_urls_csv))
    };
    RedisSettings {
        host: h,
        port: p,
        cluster_enabled: c,
        cluster_urls: urls,
        use_legacy_version: false,
        pool_size: 50,
        reconnect_max_attempts: 10,
        reconnect_delay_ms: 5000,
        default_ttl_secs: 3600,
        default_hash_ttl_secs: 3600,
        stream_read_count: 100,
        partition: 0,
    }
}

} // verus!
