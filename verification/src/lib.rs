//! Image preprocessing for a downstream generation pipeline: channel masking,
//! intensity histograms and cumulative distributions, histogram matching, and
//! a guide-map transform.

pub mod error;
pub mod guide;
pub mod hist;
mod imageio;
pub mod matching;
pub mod pixel;
pub mod source;

pub use error::Error;
pub use guide::finish_guide_map;
pub use guide::prepare_guide_map;
pub use hist::Cdf;
pub use hist::get_cdf;
pub use hist::get_histogram;
pub use matching::match_histograms;
pub use pixel::Dims;
pub use pixel::Mask;
pub use pixel::PixelBuffer;
pub use pixel::apply_mask;
pub use source::DataSource;
pub use source::ImageSource;
pub use source::load_image;
