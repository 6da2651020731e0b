use rs_czsc::signals::cxt::{
    cxt_ma_arrangement_v230414, cxt_ma_trend_v230414, cxt_market_phase_v230414, cxt_market_sentiment_v230414, cxt_trend_strength_v230414,
};

#[test]
fn test_cxt_market_sentiment_v230414() {
    let signal = cxt_market_sentiment_v230414("日线", 7, 2, 10);
    assert_eq!(signal.v1, "极度乐观");
}

#[test]
fn sentiment_thresholds_are_strict() {
    assert_eq!(cxt_market_sentiment_v230414("日线", 6, 0, 10).v1, "乐观");
    assert_eq!(cxt_market_sentiment_v230414("日线", 4, 0, 10).v1, "中性");
    assert_eq!(cxt_market_sentiment_v230414("日线", 4, 7, 10).v1, "极度悲观");
    assert_eq!(cxt_market_sentiment_v230414("日线", 1, 5, 10).v1, "悲观");
    assert_eq!(cxt_market_sentiment_v230414("日线", 3, 5, 5).v1, "乐观");
}

#[test]
fn sentiment_counts_at_least_one_signal() {
    let s = cxt_market_sentiment_v230414("60分钟", 1, 0, 0);
    assert_eq!(s.v1, "极度乐观");
    assert_eq!(s.k1, "60分钟");
    assert_eq!(s.k2, "情绪_状态V230414");
    assert_eq!(s.k3, "情绪");
    assert_eq!(s.signal, "60分钟_情绪_状态V230414_情绪_极度乐观_任意_任意/0");
    assert_eq!(cxt_market_sentiment_v230414("日线", 0, 0, -5).v1, "中性");
}

#[test]
fn test_cxt_ma_trend_v230414() {
    let signal = cxt_ma_trend_v230414("日线", Some("SMA"), Some(20), 105, 100);
    assert_eq!(signal.v1, "多头趋势");
    assert_eq!(signal.k2, "SMA#20#MA_趋势V230414");
    assert_eq!(cxt_ma_trend_v230414("日线", None, None, 100, 100).v1, "空头趋势");
    assert_eq!(cxt_ma_trend_v230414("日线", Some("EMA"), Some(5), 1, 2).signal, "日线_EMA#5#MA_趋势V230414_状态_空头趋势_任意_任意/0");
}

#[test]
fn test_cxt_ma_arrangement_v230414() {
    let signal = cxt_ma_arrangement_v230414("60分钟", &[100, 98, 95]);
    assert_eq!(signal.v1, "多头排列");
    assert_eq!(cxt_ma_arrangement_v230414("60分钟", &[95, 98, 100]).v1, "空头排列");
    assert_eq!(cxt_ma_arrangement_v230414("60分钟", &[95, 98, 97]).v1, "震荡");
    assert_eq!(cxt_ma_arrangement_v230414("60分钟", &[]).v1, "多头排列");
}

#[test]
fn test_cxt_trend_strength_v230414() {
    let signal = cxt_trend_strength_v230414("15分钟", 3, 1);
    assert_eq!(signal.v1, "强势");
    assert_eq!(signal.v2, "多头");
    assert_eq!(cxt_trend_strength_v230414("15分钟", -3, 2).v1, "中势");
    assert_eq!(cxt_trend_strength_v230414("15分钟", -3, 2).v2, "空头");
    assert_eq!(cxt_trend_strength_v230414("15分钟", 5, 0).v1, "弱势");
}

#[test]
fn test_cxt_market_phase_v230414() {
    let signal = cxt_market_phase_v230414("周线", 150, 100, "year");
    assert_eq!(signal.v1, "牛市主升");
    assert_eq!(signal.k2, "year_阶段V230414");
    assert_eq!(cxt_market_phase_v230414("周线", 120, 100, "y").v1, "牛市回调");
    assert_eq!(cxt_market_phase_v230414("周线", 100, 100, "y").v1, "震荡");
    assert_eq!(cxt_market_phase_v230414("周线", 80, 100, "y").v1, "熊市反弹");
    assert_eq!(cxt_market_phase_v230414("周线", 70, 100, "y").v1, "熊市主跌");
    assert_eq!(cxt_market_phase_v230414("周线", 5, 0, "y").v1, "牛市主升");
    assert_eq!(cxt_market_phase_v230414("周线", -150, -100, "y").v1, "牛市主升");
}
