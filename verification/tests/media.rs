//! Voices, requests, files and the look.
use null_terminal::files::{arrange, is_media, start_dir, Found};
use null_terminal::http::{
    download_request, escape, explain, fits, split_response, split_tunnel, tunnel_download_request,
    tunnel_upload_request, upload_request,
};
use null_terminal::protocol::AttachmentKind;
use null_terminal::store::sniff;
use null_terminal::theme::Theme;
use null_terminal::wave::{wav, waveform, WAVE_BARS};
use null_terminal::width::{human_size, shorten, shorten_left, split_at_width, wrap};
use unicode_width::UnicodeWidthStr;

fn voice(samples: &[i16]) -> Vec<u8> {
    let mut data = Vec::new();
    for sample in samples {
        data.extend_from_slice(&sample.to_le_bytes());
    }
    let mut out = Vec::new();
    out.extend_from_slice(b"RIFF");
    out.extend_from_slice(&((36 + data.len()) as u32).to_le_bytes());
    out.extend_from_slice(b"WAVEfmt ");
    out.extend_from_slice(&16u32.to_le_bytes());
    out.extend_from_slice(&1u16.to_le_bytes());
    out.extend_from_slice(&1u16.to_le_bytes());
    out.extend_from_slice(&16_000u32.to_le_bytes());
    out.extend_from_slice(&32_000u32.to_le_bytes());
    out.extend_from_slice(&2u16.to_le_bytes());
    out.extend_from_slice(&16u16.to_le_bytes());
    out.extend_from_slice(b"data");
    out.extend_from_slice(&(data.len() as u32).to_le_bytes());
    out.extend_from_slice(&data);
    out
}

#[test]
fn duration_comes_from_the_header() {
    // A second at 16 kHz is exactly 16000 samples.
    let wave = waveform(&voice(&vec![0i16; 16_000])).expect("wav не разобран");

    assert_eq!(wave.millis, 1000);
    assert_eq!(wave.bars.len(), WAVE_BARS);
}

#[test]
fn loud_places_are_taller_than_quiet_ones() {
    let mut samples = vec![100i16; 16_000];
    samples.extend(std::iter::repeat_n(20_000i16, 16_000));

    let wave = waveform(&voice(&samples)).expect("wav не разобран");

    let half = wave.bars.len() / 2;
    let quiet: u32 = wave.bars[..half].iter().map(|b| *b as u32).sum();
    let loud: u32 = wave.bars[half..].iter().map(|b| *b as u32).sum();
    assert!(loud > quiet * 2, "тихо {quiet}, громко {loud}: {:?}", wave.bars);
}

#[test]
fn a_quiet_recording_still_shows_something() {
    let mut samples = vec![0i16; 8_000];
    samples.extend(std::iter::repeat_n(300i16, 8_000));

    let wave = waveform(&voice(&samples)).expect("wav не разобран");

    assert_eq!(wave.bars.iter().copied().max(), Some(8));
}

#[test]
fn what_is_not_a_wav_is_refused_rather_than_invented() {
    assert!(waveform(&b"OggS not a wav at all".to_vec()).is_none());
    assert!(waveform(&vec![]).is_none());
    assert!(waveform(&voice(&[])).is_none());
}

#[test]
fn chunks_between_the_head_and_the_samples_are_skipped() {
    let plain = voice(&[1000; 160]);
    let mut odd = plain[..36].to_vec();
    // A chunk of odd length is followed by one byte that belongs to nobody.
    odd.extend_from_slice(b"LIST");
    odd.extend_from_slice(&3u32.to_le_bytes());
    odd.extend_from_slice(&[1, 2, 3, 0]);
    odd.extend_from_slice(&plain[36..]);

    assert_eq!(waveform(&odd), waveform(&plain));
    assert_eq!(waveform(&plain).unwrap().millis, 10);
}

#[test]
fn eight_bits_are_not_drawn() {
    let mut bytes = voice(&[1000; 160]);
    bytes[34] = 8;
    assert!(waveform(&bytes).is_none());
}

#[test]
fn wav_header_describes_the_data() {
    let bytes = wav(&vec![0, 1, -1, 32767], 16_000);

    assert_eq!(&bytes[0..4], b"RIFF");
    assert_eq!(&bytes[8..12], b"WAVE");
    assert_eq!(&bytes[36..40], b"data");
    // The head and two bytes for each sample.
    assert_eq!(bytes.len(), 44 + 8);
    assert_eq!(
        u32::from_le_bytes(bytes[40..44].try_into().unwrap()),
        8,
        "в заголовке неверная длина данных"
    );
    assert_eq!(u32::from_le_bytes(bytes[24..28].try_into().unwrap()), 16_000);
}

#[test]
fn recorded_wav_is_recognized_by_the_server() {
    let bytes = wav(&vec![0; 16], 16_000);

    assert_eq!(&bytes[0..4], b"RIFF");
    assert_eq!(&bytes[8..12], b"WAVE");
    assert_eq!(sniff(&bytes), Some(("audio/wav", AttachmentKind::Audio)));
}

#[test]
fn a_recording_is_written_sample_by_sample() {
    let samples = [0i16, 1, -1, 32767, -32768, 300];
    assert_eq!(wav(&samples.to_vec(), 16_000), voice(&samples));
    let wave = waveform(&wav(&samples.to_vec(), 1_000)).unwrap();
    assert_eq!(wave.millis, 6);
    assert_eq!(wave.bars, vec![0, 0, 0, 7, 8, 0]);
}

#[test]
fn error_response_is_explained() {
    let response = b"HTTP/1.1 404 Not Found\r\nContent-Length: 0\r\n\r\n".to_vec();

    let error = split_response(&response).unwrap_err();

    assert!(error.contains("404"), "невнятная причина: {error}");
    assert_eq!(error, "сервер ответил: HTTP/1.1 404 Not Found");
}

#[test]
fn server_explanation_wins_over_the_status_line() {
    let response = "HTTP/1.1 413 Payload Too Large\r\n\r\nфайл слишком большой: 9000 КБ"
        .as_bytes()
        .to_vec();

    let error = split_response(&response).unwrap_err();

    assert!(error.contains("слишком большой"), "пришло: {error}");
}

#[test]
fn body_is_separated_from_headers() {
    let response = b"HTTP/1.1 200 OK\r\nContent-Type: image/png\r\n\r\n\x89PNG".to_vec();

    assert_eq!(split_response(&response).unwrap(), b"\x89PNG");
}

#[test]
fn half_an_answer_is_reported() {
    let error = split_response(&b"HTTP/1.1 200 OK\r\n".to_vec()).unwrap_err();
    assert_eq!(error, "сервер ответил неполным заголовком");
}

#[test]
fn a_long_explanation_gives_way_to_the_status() {
    assert_eq!(explain("HTTP/1.1 200 OK\r\nA: b", "x"), None);
    assert_eq!(
        explain("HTTP/1.1 500 Oops\r\nA: b", &"x".repeat(200)),
        Some("сервер ответил: HTTP/1.1 500 Oops".to_string())
    );
    assert_eq!(
        explain("HTTP/1.1 500 Oops", &"x".repeat(199)),
        Some("x".repeat(199))
    );
    assert_eq!(explain("", " беда \n"), Some("беда".to_string()));
}

#[test]
fn file_names_are_escaped_for_the_query() {
    assert_eq!(escape("cat.png"), "cat.png");
    // Spaces and Cyrillic letters must not break the query.
    assert!(!escape("мой кот.png").contains(' '));
    assert!(escape("мой кот.png").contains("%20"));
    assert_eq!(escape("я~"), "%D1%8F~");
}

#[test]
fn https_is_reported_as_unsupported() {
    let error = download_request("https://example/media/1").err().unwrap();

    assert!(error.contains("https"), "невнятная причина: {error}");
}

#[test]
fn requests_name_the_host_and_the_path() {
    let request = download_request("http://host:1/media/7").ok().unwrap();
    assert_eq!(request.host, "host:1");
    assert_eq!(
        request.text,
        "GET /media/7 HTTP/1.1\r\nHost: host:1\r\nAccept: image/*\r\nConnection: close\r\n\r\n"
    );
    let bare = download_request("http://host").ok().unwrap();
    assert!(bare.text.starts_with("GET / HTTP/1.1\r\n"));

    let request = upload_request("http://host:1//", "мой", 5, 10).ok().unwrap();
    assert_eq!(request.host, "host:1");
    assert_eq!(
        request.text,
        "POST /upload?name=%D0%BC%D0%BE%D0%B9 HTTP/1.1\r\nHost: host:1\r\nContent-Length: 5\r\nConnection: close\r\n\r\n"
    );
    assert!(upload_request("https://host", "a", 5, 10).err().unwrap().contains("https"));
    assert!(upload_request("http://host", "a", 11, 10).err().unwrap().contains("слишком большой"));
}

#[test]
fn tunnels_are_told_by_their_scheme() {
    assert_eq!(
        split_tunnel("iroh://ticket/media/1"),
        Some(("ticket".to_string(), "/media/1".to_string()))
    );
    assert_eq!(split_tunnel("iroh://ticket"), Some(("ticket".to_string(), "/".to_string())));
    assert_eq!(split_tunnel("http://ticket"), None);
    let request = tunnel_download_request("iroh://t/x").unwrap();
    assert_eq!(request.host, "t");
    assert!(request.text.starts_with("GET /x HTTP/1.1\n"), "{}", request.text);
    let request = tunnel_upload_request("iroh://t", "a b", 3).unwrap();
    assert!(request.text.starts_with("POST /upload?name=a%20b HTTP/1.1\n"));
    assert!(tunnel_download_request("http://t").is_none());
    assert!(tunnel_upload_request("http://t", "a", 1).is_none());
}

#[test]
fn large_files_are_refused_in_megabytes() {
    assert!(fits(10, 10).is_ok());
    assert_eq!(
        fits(3 * 1024 * 1024 + 1, 2 * 1024 * 1024).unwrap_err(),
        "файл слишком большой: 4 МБ при потолке 2 МБ у этого сервера"
    );
}

#[test]
fn known_types_are_recognized() {
    assert!(is_media("кот.PNG"));
    assert!(is_media("голосовое.webm"));
    assert!(!is_media("заметки.txt"));
    assert!(!is_media("без_расширения"));
}

#[test]
fn endings_are_looked_for_in_the_last_name() {
    assert!(is_media("/home/кот.png/"));
    assert!(is_media("a.txt/b.gif/."));
    assert!(!is_media("кот.png/заметки"));
    assert!(!is_media(".png"));
    assert!(!is_media(".."));
    assert!(!is_media(""));
}

fn found(name: &str, is_dir: bool) -> Found {
    Found { name: name.to_string(), path: format!("/d/{name}"), is_dir, size: 4 }
}

#[test]
fn directories_come_first_and_hidden_files_stay_hidden() {
    let entries = arrange(
        Some("/".to_string()),
        vec![
            found("кот.png", false),
            found("заметки.txt", false),
            found(".скрытый", false),
            found("вложенный", true),
        ],
    );

    let names: Vec<&str> = entries.iter().map(|entry| entry.name.as_str()).collect();
    assert_eq!(names[0], "..", "подъём наверх должен быть виден");
    assert_eq!(names[1], "вложенный");
    assert!(!names.contains(&".скрытый"), "{names:?}");
    assert!(names.contains(&"кот.png"), "{names:?}");
}

#[test]
fn plain_files_are_listed_and_marked_as_not_media() {
    let entries = arrange(None, vec![found("кот.png", false), found("заметки.txt", false)]);

    let notes = entries.iter().find(|entry| entry.name == "заметки.txt");
    assert!(!notes.unwrap().media);
    let picture = entries.iter().find(|entry| entry.name == "кот.png");
    assert!(picture.unwrap().media);
}

#[test]
fn names_are_ordered_whatever_the_case() {
    let entries = arrange(None, vec![found("Фото", false), found("архив", false), found("B", true)]);
    let names: Vec<&str> = entries.iter().map(|entry| entry.name.as_str()).collect();
    assert_eq!(names, vec!["B", "архив", "Фото"]);
}

#[test]
fn remembered_directory_is_used_when_it_exists() {
    let some = |s: &str| Some(s.to_string());
    assert_eq!(start_dir(some("/a"), some("/d"), some("/h")), "/a");
    assert_eq!(start_dir(None, some("/d"), some("/h")), "/d");
    assert_eq!(start_dir(None, None, some("/h")), "/h");
    assert_eq!(start_dir(None, None, None), ".");
}

#[test]
fn themes_cycle_both_ways() {
    assert_eq!(Theme::Charple.shift(false), Theme::Dolly);
    assert_eq!(Theme::Charple.shift(true), Theme::Ember);
    // Round and round: behind the last one stands the first.
    assert_eq!(Theme::Ember.shift(false), Theme::Charple);
}

#[test]
fn themes_survive_a_round_trip() {
    for theme in Theme::ALL {
        assert_eq!(Theme::parse(theme.name()), Some(theme));
    }
    assert_eq!(Theme::parse("нет такой"), None);
}

#[test]
fn wraps_on_word_boundaries() {
    assert_eq!(wrap("одна две три", 8), ["одна две", "три"]);
}

#[test]
fn long_word_is_split_by_force() {
    // A link without spaces must not stick out.
    assert_eq!(wrap("ааааааааа", 4), ["аааа", "аааа", "а"]);
}

#[test]
fn wide_characters_count_as_two_cells() {
    assert_eq!(wrap("水水水水", 4), ["水水", "水水"]);
}

#[test]
fn narrow_column_with_wide_character_terminates() {
    // A character wider than the whole column: wrapping has to go on all the same.
    assert_eq!(wrap("水水", 1), ["水", "水"]);
}

#[test]
fn empty_text_gives_one_empty_line() {
    assert_eq!(wrap("", 10), [""]);
}

#[test]
fn sizes_are_human_readable() {
    assert_eq!(human_size(512), "512 Б");
    assert_eq!(human_size(240 * 1024), "240 КБ");
    assert_eq!(human_size(3 * 1024 * 1024 + 512 * 1024), "3,5 МБ");
}

#[test]
fn long_path_is_cut_from_the_left() {
    let short = shorten_left("C:/фото", 20);
    let long = shorten_left("C:/очень/длинный/путь/куда-то/вглубь/фото", 20);

    assert_eq!(short, "C:/фото");
    // The end of a path matters more than its beginning.
    assert!(long.starts_with('…'), "{long}");
    assert!(long.ends_with("фото"), "{long}");
    assert!(long.chars().count() <= 20, "{long}");
}

#[test]
fn names_are_cut_from_the_right() {
    assert_eq!(shorten("общий", 10), "общий");
    let cut = shorten("очень-длинное-имя-комнаты", 10);
    assert!(cut.ends_with('…'), "{cut}");
    assert!(cut.chars().count() <= 10, "{cut}");
}

#[test]
fn no_line_is_wider_than_its_column() {
    assert_eq!(wrap("a 水水", 3), ["a", "水", "水"]);
    for (text, width) in [("a 水水", 3), ("水a水a水", 3), ("слово水 ещё", 5), ("ab cd ef", 2)] {
        for line in wrap(text, width) {
            assert!(line.width() <= width, "{text} {width}: {line}");
        }
    }
}

#[test]
fn a_cut_text_fits_even_where_nothing_of_it_does() {
    assert_eq!(shorten("水水", 2), "…");
    assert_eq!(shorten("水水水", 3), "水…");
    for width in 1..8 {
        assert!(shorten("水 и ещё 水水", width).width() <= width);
    }
}

#[test]
fn a_short_recording_has_a_bar_for_every_sample() {
    let wave = waveform(&voice(&[1, 2, 3, 4, 5])).unwrap();
    assert_eq!(wave.bars.len(), 5);
    let wave = waveform(&voice(&[7; 29])).unwrap();
    assert_eq!(wave.bars.len(), WAVE_BARS);
}

#[test]
fn lines_have_no_blank_edges() {
    for line in wrap("  одна   две  \t три ", 4) {
        assert!(!line.is_empty() && line.trim() == line, "{line:?}");
    }
    assert_eq!(wrap(" \t ", 4), [""]);
}

#[test]
fn a_text_is_divided_where_nothing_more_fits() {
    assert_eq!(split_at_width("абвг", 3), ("абв".to_string(), "г".to_string()));
    assert_eq!(split_at_width("水水", 3), ("水".to_string(), "水".to_string()));
    assert_eq!(split_at_width("水水", 1), ("水".to_string(), "水".to_string()));
    assert_eq!(split_at_width("аб", 0), (String::new(), "аб".to_string()));
}
