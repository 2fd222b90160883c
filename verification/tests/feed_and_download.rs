use podcast_downloader::download::{target_file_name, DownloadProgress};
use podcast_downloader::feed::{episodes_from_bytes, Episode, FeedError};
use podcast_downloader::select::{episode_options, find_selected, str_contains};

fn feed_with_four_items() -> Vec<u8> {
    let xml = r#"<?xml version="1.0" encoding="UTF-8"?>
<rss version="2.0">
  <channel>
    <title>Show</title>
    <link>https://example.com</link>
    <description>A show</description>
    <item>
      <title>First</title>
      <enclosure url="https://example.com/first.mp3" length="10" type="audio/mpeg"/>
    </item>
    <item>
      <title>No Enclosure</title>
    </item>
    <item>
      <enclosure url="https://example.com/untitled.mp3" length="10" type="audio/mpeg"/>
    </item>
    <item>
      <title>Fourth</title>
      <enclosure url="https://example.com/fourth.m4a" length="10" type="audio/mp4"/>
    </item>
  </channel>
</rss>"#;
    xml.as_bytes().to_vec()
}

#[test]
fn feed_keeps_only_items_with_title_and_enclosure() {
    // Four raw items, two valid ones; a limit beyond the item count keeps
    // exactly the valid two, in feed order.
    let episodes = episodes_from_bytes(&feed_with_four_items(), 10).unwrap();
    assert_eq!(episodes.len(), 2);
    assert_eq!(episodes[0].title, "First");
    assert_eq!(episodes[0].url, "https://example.com/first.mp3");
    assert_eq!(episodes[1].title, "Fourth");
    assert_eq!(episodes[1].url, "https://example.com/fourth.m4a");
}

#[test]
fn feed_limit_counts_raw_items_not_valid_ones() {
    // The limit bounds how many raw items are considered: the first three
    // items hold only one valid episode.
    let episodes = episodes_from_bytes(&feed_with_four_items(), 3).unwrap();
    assert_eq!(episodes.len(), 1);
    assert_eq!(episodes[0].title, "First");
}

#[test]
fn feed_limit_zero_yields_no_episodes() {
    let episodes = episodes_from_bytes(&feed_with_four_items(), 0).unwrap();
    assert!(episodes.is_empty());
}

#[test]
fn malformed_feed_is_a_parse_error() {
    let bytes = b"this is not an rss document".to_vec();
    assert!(matches!(
        episodes_from_bytes(&bytes, 10),
        Err(FeedError::Parse)
    ));
}

#[test]
fn option_lines_are_numbered_from_one() {
    let episodes: Vec<Episode> = (0..12)
        .map(|i| Episode {
            title: format!("Episode {}", i),
            url: format!("https://example.com/{}.mp3", i),
        })
        .collect();
    let lines = episode_options(&episodes);
    assert_eq!(lines.len(), 12);
    assert_eq!(lines[0], "1. Episode 0");
    assert_eq!(lines[9], "10. Episode 9");
    assert_eq!(lines[11], "12. Episode 11");
}

#[test]
fn selection_maps_back_to_the_first_matching_episode() {
    let episodes = vec![
        Episode {
            title: String::from("Foo"),
            url: String::from("https://example.com/foo.mp3"),
        },
        Episode {
            title: String::from("Bar"),
            url: String::from("https://example.com/bar.mp3"),
        },
    ];
    assert_eq!(find_selected(&episodes, "2. Bar"), Some(1));
    assert_eq!(find_selected(&episodes, "1. Foo"), Some(0));
    assert_eq!(find_selected(&episodes, "3. Baz"), None);
}

#[test]
fn str_contains_agrees_with_std() {
    assert!(str_contains("2. Bar", "Bar"));
    assert!(str_contains("abc", ""));
    assert!(!str_contains("ab", "abc"));
    assert!(!str_contains("acbc", "abc"));
    assert!(str_contains("ababc", "abc"));
}

#[test]
fn target_file_name_joins_sanitized_title_and_extension() {
    let episode = Episode {
        title: String::from(" My/Show: Part 1? "),
        url: String::from("https://cdn.example.com/ep.MP3?sig=xyz"),
    };
    assert_eq!(target_file_name(&episode), "My-Show- Part 1-.mp3");
}

#[test]
fn progress_reaches_the_total_after_all_chunks() {
    // A mocked stream of known total length: full 8 KiB chunks and a short
    // tail. After every chunk is recorded the counter equals the total.
    let chunks = vec![8192usize, 8192, 8192, 500];
    let total: u64 = chunks.iter().map(|&c| c as u64).sum();
    let mut progress = DownloadProgress::new(total);
    progress.record_all(&chunks);
    assert_eq!(progress.downloaded, total);
    assert_eq!(progress.total, total);
}

#[test]
fn progress_counts_chunk_by_chunk() {
    let mut progress = DownloadProgress::new(100);
    progress.record_chunk(60);
    assert_eq!(progress.downloaded, 60);
    progress.record_chunk(40);
    assert_eq!(progress.downloaded, 100);
    assert_eq!(progress.total, 100);
}
