use deskpet::local_compressor::{
    analyze_sentiment_local, extract_entities, extract_key_points, local_compress_message, remove_fillers,
    sentiment_word_hits,
};

#[test]
fn test_remove_fillers() {
    let result = remove_fillers("嗯我觉得吧这个电影真的很好看呢");
    assert!(!result.contains("嗯"));
    assert!(!result.contains("吧"));
    assert!(result.contains("好看"));
}

#[test]
fn test_extract_entities() {
    let result = extract_entities("今天下午张三买了3本书");
    assert!(result.iter().any(|e| e == "今天"));
    assert!(result.iter().any(|e| e == "下午"));
    assert!(result.iter().any(|e| e.contains("张三")));
    assert!(result.iter().any(|e| e == "数字:3"));
}

#[test]
fn remove_fillers_of_plain_text_is_unchanged() {
    assert_eq!(remove_fillers("电影很好看"), "电影很好看");
}

#[test]
fn extract_entities_deduplicates_time_words() {
    let result = extract_entities("今天今天");
    assert_eq!(result.iter().filter(|e| *e == "今天").count(), 1);
}

#[test]
fn extract_entities_of_empty_text_is_empty() {
    assert!(extract_entities("").is_empty());
}

#[test]
fn key_points_drop_fillers() {
    let r = extract_key_points("嗯那个我今天去看了电影");
    assert!(!r.contains("嗯"));
    assert!(!r.contains("那个"));
    assert!(r.contains("电影"));
}

#[test]
fn sentiment_hits_count_both_kinds() {
    let (pos, neg) = sentiment_word_hits("好开心啊 谢谢 太棒了");
    assert!(pos > neg);
    let (pos2, neg2) = sentiment_word_hits("好烦 无聊 生气");
    assert!(neg2 > pos2);
    assert_eq!(sentiment_word_hits("桌子"), (0, 0));
}

#[test]
fn test_sentiment_positive() {
    let result = analyze_sentiment_local("好开心啊 谢谢 太棒了");
    assert!(result > 0);
}

#[test]
fn test_sentiment_negative() {
    let result = analyze_sentiment_local("好烦 无聊 生气");
    assert!(result < 0);
}

#[test]
fn test_full_compress() {
    let result = local_compress_message("嗯那个我今天下午跟张三去看了一部电影，真的很好看呢！");
    assert!(!result.summary.contains("嗯"));
    assert!(!result.summary.contains("那个"));
    assert!(result.entities.iter().any(|e| e == "下午" || e == "今天"));
    assert!(result.sentiment > 0);
}

#[test]
fn sentiment_is_fifteen_hundredths_per_word_clamped() {
    assert_eq!(analyze_sentiment_local("谢谢"), 15);
    assert_eq!(analyze_sentiment_local("无聊"), -15);
    assert_eq!(analyze_sentiment_local("平平常常"), 0);
    assert_eq!(
        analyze_sentiment_local("喜欢 开心 高兴 感谢 谢谢 棒 赞 厉害 佩服"),
        100
    );
}
