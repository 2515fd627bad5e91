//! The person segmentation model (u2netp, run with tract): where it comes from
//! and when a downloaded copy can be used. Running the model is floating-point
//! work and happens outside the library.
use vstd::prelude::*;

verus! {

/// Side of the square input the model takes.
pub const INPUT_SIDE: usize = 320;
pub const MODEL_FILE_NAME: &'static str = "u2netp.onnx";
/// A file smaller than this is a broken download.
pub const MIN_MODEL_BYTES: u64 = 1_000_000;

/// The download sources, tried in order: the release itself, then a mirror.
pub fn model_urls() -> (r: Vec<&'static str>)
    ensures
        r.len() == 2,
        r@[0]@ == "https://github.com/danielgatis/rembg/releases/download/v0.0.0/u2netp.onnx"@,
        r@[1]@ == "https://gh-proxy.com/https://github.com/danielgatis/rembg/releases/download/v0.0.0/u2netp.onnx"@,
{
    let mut v: Vec<&'static str> = Vec::new();
    v.push("https://github.com/danielgatis/rembg/releases/download/v0.0.0/u2netp.onnx");
    v.push("https://gh-proxy.com/https://github.com/danielgatis/rembg/releases/download/v0.0.0/u2netp.onnx");
    v
}

/// A model file on disk can be used when it is a regular file of at least 1 MB.
pub fn model_usable(is_file: bool, len: Option<u64>) -> (r: bool)
    ensures
        r == (is_file && (len matches Some(l) && l >= MIN_MODEL_BYTES)),
{
    is_file && match len {
        Some(l) => l >= MIN_MODEL_BYTES,
        None => false,
    }
}

/// What a failed download reports: the last source's failure and where to put a
/// copy fetched by hand.
pub fn download_error(last_error: &Option<String>, path: &str) -> (r: String)
    ensures
        r@ == "下载人像分割模型失败（"@ + match last_error {
            Some(e) => e@,
            None => Seq::empty(),
        } + "）。可手动下载任意一个地址的文件，改名 "@ + MODEL_FILE_NAME@ + " 放到 "@ + path@ + " 后重试"@,
{
    let mut out = String::from_str("下载人像分割模型失败（");
    if let Some(e) = last_error {
        out.append(e.as_str());
    }
    out.append("）。可手动下载任意一个地址的文件，改名 ");
    out.append(MODEL_FILE_NAME);
    out.append(" 放到 ");
    out.append(path);
    out.append(" 后重试");
    out
}

} // verus!
