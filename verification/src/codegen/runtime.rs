//! The C runtime that every generated program starts with.

use vstd::prelude::*;

use crate::text;

verus! {

/// What every generated program starts with: the headers of the C library, the
/// part of the runtime that needs nothing else, and the part for networking, files
/// and processes. A piece is a function, by its result, name, parameters and the
/// rest of it; or, where it has no name, other lines: headers, macros, variables
/// and comments.
pub const PIECES: [(&'static str, &'static str, &'static str, &'static str); 196] = [
    // The headers of the C library.
    ("", "", "", "#include <stdint.h>"),
    ("", "", "", "#include <stdbool.h>"),
    ("", "", "", "#include <stddef.h>"),
    ("", "", "", "#include <stdio.h>"),
    ("", "", "", "#include <string.h>"),
    ("", "", "", "#include <stdlib.h>"),
    ("", "", "", "#include <time.h>"),
    ("", "", "", "#include <locale.h>"),
    ("", "", "", ""),
    // Concatenation, numbers as text, and the checks that end a program.
    ("", "", "", r##"int __xlang_argc_g = 0;
char** __xlang_argv_g = 0;"##),
    ("char*", "__xlang_str_concat", "const char* a, const char* b", r##"
    size_t la = strlen(a), lb = strlen(b);
    char* out = (char*)malloc(la + lb + 1);
    memcpy(out, a, la);
    memcpy(out + la, b, lb);
    out[la + lb] = 0;
    return out;
}"##),
    ("char*", "__xlang_int_to_str", "int32_t n", r##"
    char* buf = (char*)malloc(16);
    snprintf(buf, 16, "%d", n);
    return buf;
}"##),
    ("", "", "", r##"// assert / panic / unreachable — program-invariant self-checks.
// Each prints to stderr and exits non-zero (so a failing assertion
// surfaces as a non-zero exit code, not silent wrong output)."##),
    ("void", "__xlang_assert", "int32_t cond, const char* msg", r##"
    if (!cond) { fprintf(stderr, "xlang assertion failed: %s\n", msg ? msg : ""); exit(1); }
}"##),
    ("void", "__xlang_panic", "const char* msg", r##"
    fprintf(stderr, "xlang panic: %s\n", msg ? msg : ""); exit(1);
}"##),
    ("void", "__xlang_unreachable_", "void", r##"
    fprintf(stderr, "xlang: reached unreachable\n"); exit(1);
}"##),
    // SHA-256 and SHA-224.
    ("", "", "", "// SHA-256 hash → 64-char hex string. Standard FIPS 180-4 implementation."),
    ("char*", "__xlang_sha256_hex", "const char* data", r##"
    static const uint32_t K[64] = {
        0x428a2f98,0x71374491,0xb5c0fbcf,0xe9b5dba5,0x3956c25b,0x59f111f1,0x923f82a4,0xab1c5ed5,
        0xd807aa98,0x12835b01,0x243185be,0x550c7dc3,0x72be5d74,0x80deb1fe,0x9bdc06a7,0xc19bf174,
        0xe49b69c1,0xefbe4786,0x0fc19dc6,0x240ca1cc,0x2de92c6f,0x4a7484aa,0x5cb0a9dc,0x76f988da,
        0x983e5152,0xa831c66d,0xb00327c8,0xbf597fc7,0xc6e00bf3,0xd5a79147,0x06ca6351,0x14292967,
        0x27b70a85,0x2e1b2138,0x4d2c6dfc,0x53380d13,0x650a7354,0x766a0abb,0x81c2c92e,0x92722c85,
        0xa2bfe8a1,0xa81a664b,0xc24b8b70,0xc76c51a3,0xd192e819,0xd6990624,0xf40e3585,0x106aa070,
        0x19a4c116,0x1e376c08,0x2748774c,0x34b0bcb5,0x391c0cb3,0x4ed8aa4a,0x5b9cca4f,0x682e6ff3,
        0x748f82ee,0x78a5636f,0x84c87814,0x8cc70208,0x90befffa,0xa4506ceb,0xbef9a3f7,0xc67178f2
    };
    uint32_t h[8] = {0x6a09e667,0xbb67ae85,0x3c6ef372,0xa54ff53a,0x510e527f,0x9b05688c,0x1f83d9ab,0x5be0cd19};
    size_t dlen = strlen(data);
    size_t padded = ((dlen + 9 + 63) / 64) * 64;
    uint8_t* msg = (uint8_t*)calloc(padded, 1);
    memcpy(msg, data, dlen);
    msg[dlen] = 0x80;
    uint64_t bits = (uint64_t)dlen * 8;
    for (int i = 0; i < 8; i++) msg[padded - 1 - i] = (uint8_t)(bits >> (i * 8));
    for (size_t off = 0; off < padded; off += 64) {
        uint32_t w[64];
        for (int i = 0; i < 16; i++) w[i] = ((uint32_t)msg[off+i*4]<<24)|((uint32_t)msg[off+i*4+1]<<16)|((uint32_t)msg[off+i*4+2]<<8)|((uint32_t)msg[off+i*4+3]);
        for (int i = 16; i < 64; i++) {
            uint32_t s0 = ((w[i-15]>>7)|(w[i-15]<<25)) ^ ((w[i-15]>>18)|(w[i-15]<<14)) ^ (w[i-15]>>3);
            uint32_t s1 = ((w[i-2]>>17)|(w[i-2]<<15)) ^ ((w[i-2]>>19)|(w[i-2]<<13)) ^ (w[i-2]>>10);
            w[i] = w[i-16] + s0 + w[i-7] + s1;
        }
        uint32_t a=h[0],b=h[1],c=h[2],d=h[3],e=h[4],f=h[5],g=h[6],hh=h[7];
        for (int i = 0; i < 64; i++) {
            uint32_t S1 = ((e>>6)|(e<<26)) ^ ((e>>11)|(e<<21)) ^ ((e>>25)|(e<<7));
            uint32_t ch = (e & f) ^ (~e & g);
            uint32_t t1 = hh + S1 + ch + K[i] + w[i];
            uint32_t S0 = ((a>>2)|(a<<30)) ^ ((a>>13)|(a<<19)) ^ ((a>>22)|(a<<10));
            uint32_t maj = (a & b) ^ (a & c) ^ (b & c);
            uint32_t t2 = S0 + maj;
            hh=g; g=f; f=e; e=d+t1; d=c; c=b; b=a; a=t1+t2;
        }
        h[0]+=a; h[1]+=b; h[2]+=c; h[3]+=d; h[4]+=e; h[5]+=f; h[6]+=g; h[7]+=hh;
    }
    free(msg);
    char* hex = (char*)malloc(65);
    const char* hc = "0123456789abcdef";
    for (int i = 0; i < 8; i++) { hex[i*8]=(char)hc[(h[i]>>28)&15]; hex[i*8+1]=(char)hc[(h[i]>>24)&15]; hex[i*8+2]=(char)hc[(h[i]>>20)&15]; hex[i*8+3]=(char)hc[(h[i]>>16)&15]; hex[i*8+4]=(char)hc[(h[i]>>12)&15]; hex[i*8+5]=(char)hc[(h[i]>>8)&15]; hex[i*8+6]=(char)hc[(h[i]>>4)&15]; hex[i*8+7]=(char)hc[h[i]&15]; }
    hex[64] = 0;
    return hex;
}"##),
    ("", "", "", "// SHA-224 hash (FIPS 180-4) — SHA-256 with different IV, truncated to 56 hex chars."),
    ("char*", "__xlang_sha224_hex", "const char* data", r##"
    static const uint32_t K[64] = {
        0x428a2f98,0x71374491,0xb5c0fbcf,0xe9b5dba5,0x3956c25b,0x59f111f1,0x923f82a4,0xab1c5ed5,
        0xd807aa98,0x12835b01,0x243185be,0x550c7dc3,0x72be5d74,0x80deb1fe,0x9bdc06a7,0xc19bf174,
        0xe49b69c1,0xefbe4786,0x0fc19dc6,0x240ca1cc,0x2de92c6f,0x4a7484aa,0x5cb0a9dc,0x76f988da,
        0x983e5152,0xa831c66d,0xb00327c8,0xbf597fc7,0xc6e00bf3,0xd5a79147,0x06ca6351,0x14292967,
        0x27b70a85,0x2e1b2138,0x4d2c6dfc,0x53380d13,0x650a7354,0x766a0abb,0x81c2c92e,0x92722c85,
        0xa2bfe8a1,0xa81a664b,0xc24b8b70,0xc76c51a3,0xd192e819,0xd6990624,0xf40e3585,0x106aa070,
        0x19a4c116,0x1e376c08,0x2748774c,0x34b0bcb5,0x391c0cb3,0x4ed8aa4a,0x5b9cca4f,0x682e6ff3,
        0x748f82ee,0x78a5636f,0x84c87814,0x8cc70208,0x90befffa,0xa4506ceb,0xbef9a3f7,0xc67178f2
    };
    uint32_t h[8]={0xc1059ed8,0x367cd507,0x3070dd17,0xf70e5939,0xffc00b31,0x68581511,0x64f98fa7,0xbefa4fa4};
    size_t dlen=strlen(data),padded=((dlen+9+63)/64)*64;
    uint8_t* msg=(uint8_t*)calloc(padded,1);
    memcpy(msg,data,dlen);
    msg[dlen]=0x80;
    uint64_t bits=(uint64_t)dlen*8;
    for(int i=0;i<8;i++) msg[padded-1-i]=(uint8_t)(bits>>(i*8));
    for(size_t off=0;off<padded;off+=64){
        uint32_t w[64];
        for(int i=0;i<16;i++) w[i]=((uint32_t)msg[off+i*4]<<24)|((uint32_t)msg[off+i*4+1]<<16)|((uint32_t)msg[off+i*4+2]<<8)|((uint32_t)msg[off+i*4+3]);
        for(int i=16;i<64;i++){uint32_t s0=((w[i-15]>>7)|(w[i-15]<<25))^((w[i-15]>>18)|(w[i-15]<<14))^(w[i-15]>>3);uint32_t s1=((w[i-2]>>17)|(w[i-2]<<15))^((w[i-2]>>19)|(w[i-2]<<13))^(w[i-2]>>10);w[i]=w[i-16]+s0+w[i-7]+s1;}
        uint32_t a=h[0],b=h[1],c=h[2],d=h[3],e=h[4],f=h[5],g=h[6],hh=h[7];
        for(int i=0;i<64;i++){uint32_t S1=((e>>6)|(e<<26))^((e>>11)|(e<<21))^((e>>25)|(e<<7));uint32_t ch=(e&f)^(~e&g);uint32_t t1=hh+S1+ch+K[i]+w[i];uint32_t S0=((a>>2)|(a<<30))^((a>>13)|(a<<19))^((a>>22)|(a<<10));uint32_t maj=(a&b)^(a&c)^(b&c);uint32_t t2=S0+maj;hh=g;g=f;f=e;e=d+t1;d=c;c=b;b=a;a=t1+t2;}
        h[0]+=a;h[1]+=b;h[2]+=c;h[3]+=d;h[4]+=e;h[5]+=f;h[6]+=g;h[7]+=hh;
    }
    free(msg);
    char* hex=(char*)malloc(57);
    const char* hc="0123456789abcdef";
    for(int i=0;i<7;i++){hex[i*8]=(char)hc[(h[i]>>28)&15];hex[i*8+1]=(char)hc[(h[i]>>24)&15];hex[i*8+2]=(char)hc[(h[i]>>20)&15];hex[i*8+3]=(char)hc[(h[i]>>16)&15];hex[i*8+4]=(char)hc[(h[i]>>12)&15];hex[i*8+5]=(char)hc[(h[i]>>8)&15];hex[i*8+6]=(char)hc[(h[i]>>4)&15];hex[i*8+7]=(char)hc[h[i]&15];}
    hex[56]=0;
    return hex;
}"##),
    // Numbers padded to a width.
    ("char*", "__xlang_pad_int", "int32_t n, int32_t width", r##"
    char* buf = (char*)malloc(32);
    snprintf(buf, 32, "%*d", width, n);
    return buf;
}"##),
    ("", "", "", r##"// Zero-pad n to `width` digits (%0*d): 5,3 → "005". Used by seq -w."##),
    ("char*", "__xlang_pad_zero", "int32_t n, int32_t width", r##"
    char* buf = (char*)malloc(32);
    snprintf(buf, 32, "%0*d", width, n);
    return buf;
}"##),
    // SHA-512 and SHA-384.
    ("", "", "", "// SHA-512 hash (FIPS 180-4) → 128-char hex string."),
    ("char*", "__xlang_sha512_hex", "const char* data", r##"
    static const uint64_t K[80]={
        0x428a2f98d728ae22ULL,0x7137449123ef65cdULL,0xb5c0fbcfec4d3b2fULL,0xe9b5dba58189dbbcULL,
        0x3956c25bf348b538ULL,0x59f111f1b605d019ULL,0x923f82a4af194f9bULL,0xab1c5ed5da6d8118ULL,
        0xd807aa98a3030242ULL,0x12835b0145706fbeULL,0x243185be4ee4b28cULL,0x550c7dc3d5ffb4e2ULL,
        0x72be5d74f27b896fULL,0x80deb1fe3b1696b1ULL,0x9bdc06a725c71235ULL,0xc19bf174cf692694ULL,
        0xe49b69c19ef14ad2ULL,0xefbe4786384f25e3ULL,0x0fc19dc68b8cd5b5ULL,0x240ca1cc77ac9c65ULL,
        0x2de92c6f592b0275ULL,0x4a7484aa6ea6e483ULL,0x5cb0a9dcbd41fbd4ULL,0x76f988da831153b5ULL,
        0x983e5152ee66dfabULL,0xa831c66d2db43210ULL,0xb00327c898fb213fULL,0xbf597fc7beef0ee4ULL,
        0xc6e00bf33da88fc2ULL,0xd5a79147930aa725ULL,0x06ca6351e003826fULL,0x142929670a0e6e70ULL,
        0x27b70a8546d22ffcULL,0x2e1b21385c26c926ULL,0x4d2c6dfc5ac42aedULL,0x53380d139d95b3dfULL,
        0x650a73548baf63deULL,0x766a0abb3c77b2a8ULL,0x81c2c92e47edaee6ULL,0x92722c851482353bULL,
        0xa2bfe8a14cf10364ULL,0xa81a664bbc423001ULL,0xc24b8b70d0f89791ULL,0xc76c51a30654be30ULL,
        0xd192e819d6ef5218ULL,0xd69906245565a910ULL,0xf40e35855771202aULL,0x106aa07032bbd1b8ULL,
        0x19a4c116b8d2d0c8ULL,0x1e376c085141ab53ULL,0x2748774cdf8eeb99ULL,0x34b0bcb5e19b48a8ULL,
        0x391c0cb3c5c95a63ULL,0x4ed8aa4ae3418acbULL,0x5b9cca4f7763e373ULL,0x682e6ff3d6b2b8a3ULL,
        0x748f82ee5defb2fcULL,0x78a5636f43172f60ULL,0x84c87814a1f0ab72ULL,0x8cc702081a6439ecULL,
        0x90befffa23631e28ULL,0xa4506cebde82bde9ULL,0xbef9a3f7b2c67915ULL,0xc67178f2e372532bULL,
        0xca273eceea26619cULL,0xd186b8c721c0c207ULL,0xeada7dd6cde0eb1eULL,0xf57d4f7fee6ed178ULL,
        0x06f067aa72176fbaULL,0x0a637dc5a2c898a6ULL,0x113f9804bef90daeULL,0x1b710b35131c471bULL,
        0x28db77f523047d84ULL,0x32caab7b40c72493ULL,0x3c9ebe0a15c9bebcULL,0x431d67c49c100d4cULL,
        0x4cc5d4becb3e42b6ULL,0x597f299cfc657e2aULL,0x5fcb6fab3ad6faecULL,0x6c44198c4a475817ULL
    };
    uint64_t h[8]={0x6a09e667f3bcc908ULL,0xbb67ae8584caa73bULL,0x3c6ef372fe94f82bULL,0xa54ff53a5f1d36f1ULL,0x510e527fade682d1ULL,0x9b05688c2b3e6c1fULL,0x1f83d9abfb41bd6bULL,0x5be0cd19137e2179ULL};
    size_t dlen=strlen(data);
    size_t padded=((dlen+17+127)/128)*128;
    uint8_t* msg=(uint8_t*)calloc(padded,1);
    memcpy(msg,data,dlen);
    msg[dlen]=0x80;
    uint64_t bits=(uint64_t)dlen*8;
    for(int i=0;i<8;i++) msg[padded-1-i]=(uint8_t)(bits>>(i*8));
    for(size_t off=0;off<padded;off+=128){
        uint64_t w[80];
        for(int i=0;i<16;i++){size_t b=off+i*8;w[i]=((uint64_t)msg[b]<<56)|((uint64_t)msg[b+1]<<48)|((uint64_t)msg[b+2]<<40)|((uint64_t)msg[b+3]<<32)|((uint64_t)msg[b+4]<<24)|((uint64_t)msg[b+5]<<16)|((uint64_t)msg[b+6]<<8)|((uint64_t)msg[b+7]);}
        for(int i=16;i<80;i++){uint64_t s0=((w[i-15]>>1)|(w[i-15]<<63))^((w[i-15]>>8)|(w[i-15]<<56))^(w[i-15]>>7);uint64_t s1=((w[i-2]>>19)|(w[i-2]<<45))^((w[i-2]>>61)|(w[i-2]<<3))^(w[i-2]>>6);w[i]=w[i-16]+s0+w[i-7]+s1;}
        uint64_t a=h[0],b=h[1],c=h[2],d=h[3],e=h[4],f=h[5],g=h[6],hh=h[7];
        for(int i=0;i<80;i++){
            uint64_t S1=((e>>14)|(e<<50))^((e>>18)|(e<<46))^((e>>41)|(e<<23));
            uint64_t ch=(e&f)^(~e&g);
            uint64_t t1=hh+S1+ch+K[i]+w[i];
            uint64_t S0=((a>>28)|(a<<36))^((a>>34)|(a<<30))^((a>>39)|(a<<25));
            uint64_t maj=(a&b)^(a&c)^(b&c);
            uint64_t t2=S0+maj;
            hh=g;g=f;f=e;e=d+t1;d=c;c=b;b=a;a=t1+t2;
        }
        h[0]+=a;h[1]+=b;h[2]+=c;h[3]+=d;h[4]+=e;h[5]+=f;h[6]+=g;h[7]+=hh;
    }
    free(msg);
    char* hex=(char*)malloc(129);
    const char* hc="0123456789abcdef";
    for(int i=0;i<8;i++){for(int j=7;j>=0;j--){hex[i*16+(7-j)*2]=(char)hc[(h[i]>>(j*8+4))&15];hex[i*16+(7-j)*2+1]=(char)hc[(h[i]>>(j*8))&15];}}
    hex[128]=0;
    return hex;
}"##),
    ("", "", "", "// SHA-384 hash (FIPS 180-4) — SHA-512 with different IV, truncated to 96 hex chars."),
    ("char*", "__xlang_sha384_hex", "const char* data", r##"
    static const uint64_t K384[80]={
        0x428a2f98d728ae22ULL,0x7137449123ef65cdULL,0xb5c0fbcfec4d3b2fULL,0xe9b5dba58189dbbcULL,
        0x3956c25bf348b538ULL,0x59f111f1b605d019ULL,0x923f82a4af194f9bULL,0xab1c5ed5da6d8118ULL,
        0xd807aa98a3030242ULL,0x12835b0145706fbeULL,0x243185be4ee4b28cULL,0x550c7dc3d5ffb4e2ULL,
        0x72be5d74f27b896fULL,0x80deb1fe3b1696b1ULL,0x9bdc06a725c71235ULL,0xc19bf174cf692694ULL,
        0xe49b69c19ef14ad2ULL,0xefbe4786384f25e3ULL,0x0fc19dc68b8cd5b5ULL,0x240ca1cc77ac9c65ULL,
        0x2de92c6f592b0275ULL,0x4a7484aa6ea6e483ULL,0x5cb0a9dcbd41fbd4ULL,0x76f988da831153b5ULL,
        0x983e5152ee66dfabULL,0xa831c66d2db43210ULL,0xb00327c898fb213fULL,0xbf597fc7beef0ee4ULL,
        0xc6e00bf33da88fc2ULL,0xd5a79147930aa725ULL,0x06ca6351e003826fULL,0x142929670a0e6e70ULL,
        0x27b70a8546d22ffcULL,0x2e1b21385c26c926ULL,0x4d2c6dfc5ac42aedULL,0x53380d139d95b3dfULL,
        0x650a73548baf63deULL,0x766a0abb3c77b2a8ULL,0x81c2c92e47edaee6ULL,0x92722c851482353bULL,
        0xa2bfe8a14cf10364ULL,0xa81a664bbc423001ULL,0xc24b8b70d0f89791ULL,0xc76c51a30654be30ULL,
        0xd192e819d6ef5218ULL,0xd69906245565a910ULL,0xf40e35855771202aULL,0x106aa07032bbd1b8ULL,
        0x19a4c116b8d2d0c8ULL,0x1e376c085141ab53ULL,0x2748774cdf8eeb99ULL,0x34b0bcb5e19b48a8ULL,
        0x391c0cb3c5c95a63ULL,0x4ed8aa4ae3418acbULL,0x5b9cca4f7763e373ULL,0x682e6ff3d6b2b8a3ULL,
        0x748f82ee5defb2fcULL,0x78a5636f43172f60ULL,0x84c87814a1f0ab72ULL,0x8cc702081a6439ecULL,
        0x90befffa23631e28ULL,0xa4506cebde82bde9ULL,0xbef9a3f7b2c67915ULL,0xc67178f2e372532bULL,
        0xca273eceea26619cULL,0xd186b8c721c0c207ULL,0xeada7dd6cde0eb1eULL,0xf57d4f7fee6ed178ULL,
        0x06f067aa72176fbaULL,0x0a637dc5a2c898a6ULL,0x113f9804bef90daeULL,0x1b710b35131c471bULL,
        0x28db77f523047d84ULL,0x32caab7b40c72493ULL,0x3c9ebe0a15c9bebcULL,0x431d67c49c100d4cULL,
        0x4cc5d4becb3e42b6ULL,0x597f299cfc657e2aULL,0x5fcb6fab3ad6faecULL,0x6c44198c4a475817ULL
    };
    uint64_t h[8]={0xcbbb9d5dc1059ed8ULL,0x629a292a367cd507ULL,0x9159015a3070dd17ULL,0x152fecd8f70e5939ULL,0x67332667ffc00b31ULL,0x8eb44a8768581511ULL,0xdb0c2e0d64f98fa7ULL,0x47b5481dbefa4fa4ULL};
    size_t dlen=strlen(data),padded=((dlen+17+127)/128)*128;
    uint8_t* msg=(uint8_t*)calloc(padded,1);
    memcpy(msg,data,dlen);
    msg[dlen]=0x80;
    uint64_t bits=(uint64_t)dlen*8;
    for(int i=0;i<8;i++) msg[padded-1-i]=(uint8_t)(bits>>(i*8));
    for(size_t off=0;off<padded;off+=128){
        uint64_t w[80];
        for(int i=0;i<16;i++){size_t b=off+i*8;w[i]=((uint64_t)msg[b]<<56)|((uint64_t)msg[b+1]<<48)|((uint64_t)msg[b+2]<<40)|((uint64_t)msg[b+3]<<32)|((uint64_t)msg[b+4]<<24)|((uint64_t)msg[b+5]<<16)|((uint64_t)msg[b+6]<<8)|((uint64_t)msg[b+7]);}
        for(int i=16;i<80;i++){uint64_t s0=((w[i-15]>>1)|(w[i-15]<<63))^((w[i-15]>>8)|(w[i-15]<<56))^(w[i-15]>>7);uint64_t s1=((w[i-2]>>19)|(w[i-2]<<45))^((w[i-2]>>61)|(w[i-2]<<3))^(w[i-2]>>6);w[i]=w[i-16]+s0+w[i-7]+s1;}
        uint64_t a=h[0],b=h[1],c=h[2],d=h[3],e=h[4],f=h[5],g=h[6],hh=h[7];
        for(int i=0;i<80;i++){uint64_t S1=((e>>14)|(e<<50))^((e>>18)|(e<<46))^((e>>41)|(e<<23));uint64_t ch=(e&f)^(~e&g);uint64_t t1=hh+S1+ch+K384[i]+w[i];uint64_t S0=((a>>28)|(a<<36))^((a>>34)|(a<<30))^((a>>39)|(a<<25));uint64_t maj=(a&b)^(a&c)^(b&c);uint64_t t2=S0+maj;hh=g;g=f;f=e;e=d+t1;d=c;c=b;b=a;a=t1+t2;}
        h[0]+=a;h[1]+=b;h[2]+=c;h[3]+=d;h[4]+=e;h[5]+=f;h[6]+=g;h[7]+=hh;
    }
    free(msg);
    char* hex=(char*)malloc(97);
    const char* hc="0123456789abcdef";
    for(int i=0;i<6;i++){for(int j=7;j>=0;j--){hex[i*16+(7-j)*2]=(char)hc[(h[i]>>(j*8+4))&15];hex[i*16+(7-j)*2+1]=(char)hc[(h[i]>>(j*8))&15];}}
    hex[96]=0;
    return hex;
}"##),
    // SHA-1 and MD5.
    ("", "", "", "// SHA-1 hash (FIPS 180-4) → 40-char hex string."),
    ("char*", "__xlang_sha1_hex", "const char* data", r##"
    uint32_t h[5]={0x67452301,0xEFCDAB89,0x98BADCFE,0x10325476,0xC3D2E1F0};
    size_t dlen=strlen(data);
    size_t padded=((dlen+9+63)/64)*64;
    uint8_t* msg=(uint8_t*)calloc(padded,1);
    memcpy(msg,data,dlen);
    msg[dlen]=0x80;
    uint64_t bits=(uint64_t)dlen*8;
    for(int i=0;i<8;i++) msg[padded-1-i]=(uint8_t)(bits>>(i*8));
    for(size_t off=0;off<padded;off+=64){
        uint32_t w[80];
        for(int i=0;i<16;i++) w[i]=((uint32_t)msg[off+i*4]<<24)|((uint32_t)msg[off+i*4+1]<<16)|((uint32_t)msg[off+i*4+2]<<8)|((uint32_t)msg[off+i*4+3]);
        for(int i=16;i<80;i++){uint32_t t=w[i-3]^w[i-8]^w[i-14]^w[i-16]; w[i]=(t<<1)|(t>>31);}
        uint32_t a=h[0],b=h[1],c=h[2],d=h[3],e=h[4];
        for(int i=0;i<80;i++){
            uint32_t f,k;
            if(i<20){f=(b&c)|(~b&d);k=0x5A827999;}
            else if(i<40){f=b^c^d;k=0x6ED9EBA1;}
            else if(i<60){f=(b&c)|(b&d)|(c&d);k=0x8F1BBCDC;}
            else{f=b^c^d;k=0xCA62C1D6;}
            uint32_t temp=((a<<5)|(a>>27))+f+e+k+w[i];
            e=d;d=c;c=((b<<30)|(b>>2));b=a;a=temp;
        }
        h[0]+=a;h[1]+=b;h[2]+=c;h[3]+=d;h[4]+=e;
    }
    free(msg);
    char* hex=(char*)malloc(41);
    const char* hc="0123456789abcdef";
    for(int i=0;i<5;i++){hex[i*8]=(char)hc[(h[i]>>28)&15];hex[i*8+1]=(char)hc[(h[i]>>24)&15];hex[i*8+2]=(char)hc[(h[i]>>20)&15];hex[i*8+3]=(char)hc[(h[i]>>16)&15];hex[i*8+4]=(char)hc[(h[i]>>12)&15];hex[i*8+5]=(char)hc[(h[i]>>8)&15];hex[i*8+6]=(char)hc[(h[i]>>4)&15];hex[i*8+7]=(char)hc[h[i]&15];}
    hex[40]=0;
    return hex;
}"##),
    ("", "", "", "// MD5 hash (RFC 1321) → 32-char hex string."),
    ("char*", "__xlang_md5_hex", "const char* data", r##"
    static const uint32_t T[64] = {
        0xd76aa478,0xe8c7b756,0x242070db,0xc1bdceee,0xf57c0faf,0x4787c62a,0xa8304613,0xfd469501,
        0x698098d8,0x8b44f7af,0xffff5bb1,0x895cd7be,0x6b901122,0xfd987193,0xa679438e,0x49b40821,
        0xf61e2562,0xc040b340,0x265e5a51,0xe9b6c7aa,0xd62f105d,0x02441453,0xd8a1e681,0xe7d3fbc8,
        0x21e1cde6,0xc33707d6,0xf4d50d87,0x455a14ed,0xa9e3e905,0xfcefa3f8,0x676f02d9,0x8d2a4c8a,
        0xfffa3942,0x8771f681,0x6d9d6122,0xfde5380c,0xa4beea44,0x4bdecfa9,0xf6bb4b60,0xbebfbc70,
        0x289b7ec6,0xeaa127fa,0xd4ef3085,0x04881d05,0xd9d4d039,0xe6db99e5,0x1fa27cf8,0xc4ac5665,
        0xf4292244,0x432aff97,0xab9423a7,0xfc93a039,0x655b59c3,0x8f0ccc92,0xffeff47d,0x85845dd1,
        0x6fa87e4f,0xfe2ce6e0,0xa3014314,0x4e0811a1,0xf7537e82,0xbd3af235,0x2ad7d2bb,0xeb86d391
    };
    static const int s[64] = {7,12,17,22,7,12,17,22,7,12,17,22,7,12,17,22,5,9,14,20,5,9,14,20,5,9,14,20,5,9,14,20,4,11,16,23,4,11,16,23,4,11,16,23,4,11,16,23,6,10,15,21,6,10,15,21,6,10,15,21,6,10,15,21};
    uint32_t a0=0x67452301,b0=0xefcdab89,c0=0x98badcfe,d0=0x10325476;
    size_t dlen=strlen(data);
    size_t padded=((dlen+9+63)/64)*64;
    uint8_t* msg=(uint8_t*)calloc(padded,1);
    memcpy(msg,data,dlen);
    msg[dlen]=0x80;
    uint64_t bits=(uint64_t)dlen*8;
    for(int i=0;i<8;i++) msg[padded-8+i]=(uint8_t)(bits>>(i*8));
    for(size_t off=0;off<padded;off+=64){
        uint32_t M[16];
        for(int i=0;i<16;i++) M[i]=((uint32_t)msg[off+i*4])|((uint32_t)msg[off+i*4+1]<<8)|((uint32_t)msg[off+i*4+2]<<16)|((uint32_t)msg[off+i*4+3]<<24);
        uint32_t A=a0,B=b0,C=c0,D=d0;
        for(int i=0;i<64;i++){
            uint32_t F; int g;
            if(i<16){F=(B&C)|(~B&D);g=i;}
            else if(i<32){F=(D&B)|(~D&C);g=(5*i+1)%16;}
            else if(i<48){F=B^C^D;g=(3*i+5)%16;}
            else{F=C^(B|~D);g=(7*i)%16;}
            F=F+A+T[i]+M[g];
            A=D;D=C;C=B;
            B=B+((F<<s[i])|(F>>(32-s[i])));
        }
        a0+=A;b0+=B;c0+=C;d0+=D;
    }
    free(msg);
    char* hex=(char*)malloc(33);
    const char* hc="0123456789abcdef";
    uint32_t hh[4]={a0,b0,c0,d0};
    for(int i=0;i<4;i++){for(int j=0;j<4;j++){hex[i*8+j*2]=(char)hc[(hh[i]>>(j*8+4))&15];hex[i*8+j*2+1]=(char)hc[(hh[i]>>(j*8))&15];}}
    hex[32]=0;
    return hex;
}"##),
    // Standard input and whole files.
    ("char*", "__xlang_read_stdin", "", r##"
    size_t cap = 65536, len = 0;
    char* buf = (char*)malloc(cap);
    size_t r;
    while ((r = fread(buf + len, 1, cap - len, stdin)) > 0) {
        len += r;
        if (len + 1 >= cap) { cap *= 2; buf = (char*)realloc(buf, cap); }
    }
    buf[len] = 0;
    return buf;
}"##),
    ("char*", "__xlang_read_file", "const char* path", r##"
    FILE* f = fopen(path, "rb");
    if (!f) { char* e = (char*)malloc(1); e[0] = 0; return e; }
    size_t cap = 65536, len = 0;
    char* buf = (char*)malloc(cap);
    size_t r;
    while ((r = fread(buf + len, 1, cap - len, f)) > 0) {
        len += r;
        if (len + 1 >= cap) { cap *= 2; buf = (char*)realloc(buf, cap); }
    }
    buf[len] = 0; fclose(f);
    return buf;
}"##),
    ("void", "__xlang_write_file", "const char* path, const char* content", r##"
    FILE* f = fopen(path, "wb");
    if (!f) return;
    fwrite(content, 1, strlen(content), f); fclose(f);
}"##),
    // Strings.
    ("int32_t", "__xlang_str_find", "const char* s, const char* sub", r##"
    const char* p = strstr(s, sub);
    return p ? (int32_t)(p - s) : -1;
}"##),
    ("char*", "__xlang_str_slice", "const char* s, int32_t start, int32_t end", r##"
    if (start < 0) start = 0;
    if (end < start) end = start;
    int32_t len = end - start;
    char* out = (char*)malloc((size_t)len + 1);
    memcpy(out, s + start, (size_t)len); out[len] = 0;
    return out;
}"##),
    ("char*", "__xlang_str_trim", "const char* s", r##"
    size_t n = strlen(s), a = 0, b = n;
    while (a < b && (s[a] == ' ' || s[a] == '\t' || s[a] == '\n' || s[a] == '\r')) a++;
    while (b > a && (s[b-1] == ' ' || s[b-1] == '\t' || s[b-1] == '\n' || s[b-1] == '\r')) b--;
    size_t len = b - a;
    char* out = (char*)malloc(len + 1);
    memcpy(out, s + a, len); out[len] = 0;
    return out;
}"##),
    ("int32_t", "__xlang_str_contains", "const char* s, const char* sub", r##"
    return strstr(s, sub) != NULL ? 1 : 0;
}"##),
    ("char*", "__xlang_float_to_str", "double f", r##"
    char* out = (char*)malloc(32);
    snprintf(out, 32, "%g", f);
    return out;
}"##),
    ("double", "__xlang_str_to_float", "const char* s", r##"
    return strtod(s, 0);
}"##),
    ("int32_t", "__xlang_str_starts_with", "const char* s, const char* prefix", r##"
    size_t pl = strlen(prefix);
    return strncmp(s, prefix, pl) == 0 ? 1 : 0;
}"##),
    ("int32_t", "__xlang_str_ends_with", "const char* s, const char* suffix", r##"
    size_t sl = strlen(s), fl = strlen(suffix);
    if (fl > sl) return 0;
    return strcmp(s + sl - fl, suffix) == 0 ? 1 : 0;
}"##),
    ("char*", "__xlang_str_replace", "const char* s, const char* from, const char* to", r##"
    size_t sl=strlen(s), fl=strlen(from), tl=strlen(to);
    if(fl==0){char*d=(char*)malloc(sl+1);strcpy(d,s);return d;}
    size_t count=0;
    const char* p=s;
    while((p=strstr(p,from))){count++;p+=fl;}
    size_t outlen=sl+count*(tl>fl?tl-fl:0)+1;
    char* out=(char*)malloc(outlen);
    char* o=out;
    const char* cur=s;
    const char* next;
    while((next=strstr(cur,from))){
        memcpy(o,cur,next-cur);o+=next-cur;
        memcpy(o,to,tl);o+=tl;
        cur=next+fl;
    }
    strcpy(o,cur);
    return out;
}"##),
    ("char*", "__xlang_str_reverse", "const char* s", r##"
    int32_t n = (int32_t)strlen(s);
    char* out = (char*)malloc(n + 1);
    for (int32_t i = 0; i < n; i++) out[i] = s[n - 1 - i];
    out[n] = 0;
    return out;
}"##),
    ("char*", "__xlang_str_lower", "const char* s", r##"
    size_t n = strlen(s);
    char* out = (char*)malloc(n + 1);
    for (size_t i = 0; i < n; i++) {
        char c = s[i];
        if (c >= 'A' && c <= 'Z') c = (char)(c + 32);
        out[i] = c;
    }
    out[n] = 0;
    return out;
}"##),
    ("char*", "__xlang_str_upper", "const char* s", r##"
    size_t n = strlen(s);
    char* out = (char*)malloc(n + 1);
    for (size_t i = 0; i < n; i++) {
        char c = s[i];
        if (c >= 'a' && c <= 'z') c = (char)(c - 32);
        out[i] = c;
    }
    out[n] = 0;
    return out;
}"##),
    ("char*", "__xlang_str_repeat", "const char* s, int32_t n", r##"
    size_t sl = strlen(s);
    if (n < 0) n = 0;
    size_t total = sl * (size_t)n;
    char* out = (char*)malloc(total + 1);
    for (int32_t i = 0; i < n; i++) memcpy(out + (size_t)i * sl, s, sl);
    out[total] = 0;
    return out;
}"##),
    ("char*", "__xlang_chr", "int32_t n", r##"
    char* out = (char*)malloc(2);
    out[0] = (char)n;
    out[1] = 0;
    return out;
}"##),
    ("", "", "", "// Find sub in s starting at byte offset `from`; absolute index or -1."),
    ("int32_t", "__xlang_str_find_from", "const char* s, const char* sub, int32_t from", r##"
    if (from < 0) from = 0;
    // O(1) terminal check (no strlen — strlen-per-call made loops over
    // str_find_from O(n^2), regressing wc -l's count_lines to 6s/100k).
    // Callers keep `from` <= strlen, so s[from] is a valid read.
    if (s[from] == 0) return -1;
    const char* p = strstr(s + from, sub);
    return p ? (int32_t)(p - s) : -1;
}"##),
    ("", "", "", "// Replace the FIRST occurrence of `from` with `to` (str_replace does all)."),
    ("char*", "__xlang_str_replace_first", "const char* s, const char* from, const char* to", r##"
    const char* p = strstr(s, from);
    size_t sl = strlen(s), fl = strlen(from), tl = strlen(to);
    if (!p) { char* d = (char*)malloc(sl + 1); strcpy(d, s); return d; }
    size_t pre = (size_t)(p - s);
    char* out = (char*)malloc(sl + (tl > fl ? tl - fl : 0) + 1);
    memcpy(out, s, pre);
    memcpy(out + pre, to, tl);
    strcpy(out + pre + tl, p + fl);
    return out;
}"##),
    ("int32_t", "__xlang_abs", "int32_t n", " return n < 0 ? -n : n; }"),
    ("int32_t", "__xlang_max", "int32_t a, int32_t b", " return a > b ? a : b; }"),
    ("int32_t", "__xlang_min", "int32_t a, int32_t b", " return a < b ? a : b; }"),
    ("char*", "__xlang_str_translate", "const char* s, const char* from, const char* to", r##"
    int32_t n = (int32_t)strlen(s);
    int32_t tn = (int32_t)strlen(to);
    // Build a 256-entry translation table once (first-occurrence wins,
    // matching strchr), then apply per char — O(n), vs the old O(n*|from|)
    // strchr-per-char which made `tr a-z A-Z` ~8x slower than GNU tr.
    char table[256];
    unsigned char mapped[256];
    for (int i = 0; i < 256; i++) { table[i] = (char)i; mapped[i] = 0; }
    for (int32_t i = 0; from[i] && i < tn; i++) {
        unsigned char c = (unsigned char)from[i];
        if (!mapped[c]) { table[c] = to[i]; mapped[c] = 1; }
    }
    char* out = (char*)malloc(n + 1);
    for (int32_t i = 0; i < n; i++) out[i] = table[(unsigned char)s[i]];
    out[n] = 0;
    return out;
}"##),
    ("", "", "", r##"// Delete every char in `set` from `s` — O(n) bulk via a 256-byte presence
// table (built in C), vs a per-char str_char_at loop in xlang. For tr -d."##),
    ("char*", "__xlang_str_delete", "const char* s, const char* set", r##"
    int32_t n = (int32_t)strlen(s);
    unsigned char keep[256];
    for (int i = 0; i < 256; i++) keep[i] = 1;
    for (int i = 0; set[i]; i++) keep[(unsigned char)set[i]] = 0;
    char* out = (char*)malloc(n + 1);
    int32_t j = 0;
    for (int32_t i = 0; i < n; i++) {
        if (keep[(unsigned char)s[i]]) out[j++] = s[i];
    }
    out[j] = 0;
    return out;
}"##),
    ("", "", "", r##"// cat -A/-E/-T style 'show' of a string: show_tabs=1 → tab as "^I",
// show_ends=1 → '$' before each newline. Bulk O(n) in C, vs the per-char
// xlang loop that made cate/showall 3-6x slower than GNU cat -A/-E on Linux."##),
    ("char*", "__xlang_cat_show", "const char* s, int32_t show_tabs, int32_t show_ends", r##"
    int32_t n = (int32_t)strlen(s);
    char* out = (char*)malloc((size_t)n * 2 + 1);
    int32_t j = 0;
    for (int32_t i = 0; i < n; i++) {
        unsigned char c = (unsigned char)s[i];
        if (c == 9 && show_tabs) { out[j++] = '^'; out[j++] = 'I'; }
        else if (c == 10) { if (show_ends) out[j++] = '$'; out[j++] = '\n'; }
        else { out[j++] = (char)c; }
    }
    out[j] = 0;
    return out;
}"##),
    ("", "", "", "// Keep only the bytes of s that are in set (tr -cd)."),
    ("char*", "__xlang_str_keep", "const char* s, const char* set", r##"
    unsigned char in[256] = {0};
    for (const unsigned char* p = (const unsigned char*)set; *p; p++) in[*p] = 1;
    size_t n = strlen(s), k = 0;
    char* out = (char*)malloc(n + 1);
    for (size_t i = 0; i < n; i++) {
        if (in[(unsigned char)s[i]]) out[k++] = s[i];
    }
    out[k] = 0;
    return out;
}"##),
    ("", "", "", "// Replace each byte of s that is not in set by the last byte of to (tr -c)."),
    ("char*", "__xlang_str_translate_complement", "const char* s, const char* set, const char* to", r##"
    unsigned char in[256] = {0};
    for (const unsigned char* p = (const unsigned char*)set; *p; p++) in[*p] = 1;
    size_t n = strlen(s), tl = strlen(to);
    char* out = (char*)malloc(n + 1);
    for (size_t i = 0; i < n; i++) {
        out[i] = (tl > 0 && !in[(unsigned char)s[i]]) ? to[tl - 1] : s[i];
    }
    out[n] = 0;
    return out;
}"##),
    ("", "", "", "// The number of line breaks in s."),
    ("int32_t", "__xlang_count_newlines", "const char* s", r##"
    int32_t n = 0;
    for (const char* p = strchr(s, '\n'); p; p = strchr(p + 1, '\n')) n++;
    return n;
}"##),
    // Lines of input, and the string builder.
    ("char*", "__xlang_read_line", "", r##"
    char* buf = (char*)malloc(65536);
    if (!fgets(buf, 65536, stdin)) { buf[0] = 0; return buf; }
    int32_t n = (int32_t)strlen(buf);
    if (n > 0 && buf[n - 1] == '\n') buf[n - 1] = 0;
    return buf;
}"##),
    ("", "", "", r##"static char* __sb_buf = 0;
static size_t __sb_len = 0;
static size_t __sb_cap = 0;"##),
    ("void", "__xlang_sb_new", "", r##"
    if (!__sb_buf) { __sb_buf = (char*)malloc(65536); __sb_cap = 65536; }
    __sb_len = 0; __sb_buf[0] = 0;
}"##),
    ("void", "__xlang_sb_push", "const char* s", r##"
    size_t sl = strlen(s);
    if (__sb_len + sl + 1 > __sb_cap) {
        while (__sb_len + sl + 1 > __sb_cap) __sb_cap *= 2;
        __sb_buf = (char*)realloc(__sb_buf, __sb_cap);
    }
    memcpy(__sb_buf + __sb_len, s, sl);
    __sb_len += sl;
    __sb_buf[__sb_len] = 0;
}"##),
    ("const char*", "__xlang_sb_str", "", r##"
    return __sb_buf ? __sb_buf : "";
}"##),
    ("void", "__xlang_sb_push_char", "int32_t c", r##"
    if (__sb_len + 2 > __sb_cap) { __sb_cap *= 2; __sb_buf = (char*)realloc(__sb_buf, __sb_cap); }
    __sb_buf[__sb_len++] = (char)c;
    __sb_buf[__sb_len] = 0;
}"##),
    ("void", "__xlang_sb_push_i32", "int32_t n", r##"
    char buf[16];
    snprintf(buf, 16, "%d", n);
    __xlang_sb_push(buf);
}"##),
    ("", "", "", "// Append the bytes of s from start up to end, both within s."),
    ("void", "__xlang_sb_push_slice", "const char* s, int32_t start, int32_t end", r##"
    int32_t n = (int32_t)strlen(s);
    if (start < 0) start = 0;
    if (end > n) end = n;
    for (int32_t i = start; i < end; i++) __xlang_sb_push_char((unsigned char)s[i]);
}"##),
    // Dates and times.
    ("char*", "__xlang_time_str", "", r##"
    setlocale(LC_TIME, "");
    time_t t = time(NULL);
    struct tm* tm = localtime(&t);
    char* s = (char*)malloc(64);
    strftime(s, 64, "%a %b %e %H:%M:%S %Z %Y", tm);
    return s;
}"##),
    ("", "", "", r##"// Format the current LOCAL time under a caller-supplied strftime
// format string (e.g. "%Y-%m-%d %H:%M:%S"). Owned, malloc'd buffer."##),
    ("char*", "__xlang_time_format", "const char* fmt", r##"
    setlocale(LC_TIME, "");
    time_t t = time(NULL);
    struct tm* tm = localtime(&t);
    char* s = (char*)malloc(256);
    strftime(s, 256, fmt, tm);
    return s;
}"##),
    ("", "", "", r##"// Same as __xlang_time_format but in UTC (gmtime). Used by `date -u`.
// gmtime (not gmtime_r) so this compiles on MSVC/Windows too — the
// preamble is always emitted, unlike the Linux-only networking block."##),
    ("char*", "__xlang_time_format_utc", "const char* fmt", r##"
    time_t t = time(NULL);
    struct tm* tm = gmtime(&t);
    char* s = (char*)malloc(256);
    strftime(s, 256, fmt, tm);
    return s;
}"##),
    ("", "", "", r##"// Format an ARBITRARY time given as a Unix epoch (int32 seconds), in local
// time. Used by `date -d @EPOCH` and `date -r FILE` (file mtime). The
// epoch is int32 (matches __xlang_stat_field's mtime) — Y2038-bounded."##),
    ("char*", "__xlang_time_format_at", "const char* fmt, int32_t epoch", r##"
    setlocale(LC_TIME, "");
    time_t t = (time_t)epoch;
    struct tm* tm = localtime(&t);
    char* s = (char*)malloc(256);
    strftime(s, 256, fmt, tm);
    return s;
}"##),
    ("", "", "", "// Format an arbitrary epoch in UTC (gmtime). Same int32 caveat."),
    ("char*", "__xlang_time_format_at_utc", "const char* fmt, int32_t epoch", r##"
    time_t t = (time_t)epoch;
    struct tm* tm = gmtime(&t);
    char* s = (char*)malloc(256);
    strftime(s, 256, fmt, tm);
    return s;
}"##),
    ("", "", "", r##"// Monotonic seconds since an arbitrary epoch (CLOCK_MONOTONIC), as int32.
// Overflow-safe for ~68 years. Used for elapsed-time measurement (e.g. the
// load generator's per-worker duration timing) — NOT wall-clock time."##),
    ("int32_t", "__xlang_now_s", "", r##"
    struct timespec ts;
    clock_gettime(CLOCK_MONOTONIC, &ts);
    return (int32_t)ts.tv_sec;
}"##),
    ("", "", "", r##"// Wall-clock Unix epoch seconds (time(NULL)), as int32. Unlike now_s
// (monotonic), this is the real date/time — use for `date -d yesterday`
// style relative-date arithmetic. Y2038-bounded (int32)."##),
    ("int32_t", "__xlang_time_now", "", r##"
    return (int32_t)time(NULL);
}"##),
    ("", "", "", ""),
    // The headers for what follows, which Windows lacks.
    ("", "", "", "#if defined(__linux__)"),
    ("", "", "", r##"#include <unistd.h>
#include <sys/socket.h>
#include <netinet/in.h>
#include <arpa/inet.h>
#include <netdb.h>
#include <dirent.h>
#include <sys/stat.h>
#include <signal.h>
#include <sys/utsname.h>
#include <sys/epoll.h>
#include <fcntl.h>
#include <sys/sendfile.h>
#include <netinet/tcp.h>
#include <errno.h>
#include <sched.h>
#include <sys/wait.h>
#include <sys/statvfs.h>
#include <pwd.h>
#include <grp.h>
#include <utmp.h>
#include <regex.h>"##),
    // TCP sockets.
    ("int32_t", "__xlang_tcp_listen", "int32_t port", r##"
    int fd = socket(AF_INET, SOCK_STREAM, 0);
    int opt = 1;
    setsockopt(fd, SOL_SOCKET, SO_REUSEADDR, &opt, sizeof(opt));
    struct sockaddr_in addr;
    addr.sin_family = AF_INET;
    addr.sin_addr.s_addr = INADDR_ANY;
    addr.sin_port = htons((uint16_t)port);
    bind(fd, (struct sockaddr*)&addr, sizeof(addr));
    listen(fd, 64);
    return (int32_t)fd;
}"##),
    ("", "", "", r##"// Like __xlang_tcp_listen but sets SO_REUSEPORT before bind, so a prefork
// pool of workers can all bind the same port and the kernel load-balances
// incoming connections across them (the nginx multi-worker model). Each
// worker accept()s on its own inherited fd inside its own epoll loop.
// SO_REUSEPORT must be set before bind(). Linux 3.8+."##),
    ("int32_t", "__xlang_tcp_listen_reuseport", "int32_t port", r##"
    int fd = socket(AF_INET, SOCK_STREAM, 0);
    int opt = 1;
    setsockopt(fd, SOL_SOCKET, SO_REUSEADDR, &opt, sizeof(opt));
    setsockopt(fd, SOL_SOCKET, SO_REUSEPORT, &opt, sizeof(opt));
    struct sockaddr_in addr;
    addr.sin_family = AF_INET;
    addr.sin_addr.s_addr = INADDR_ANY;
    addr.sin_port = htons((uint16_t)port);
    bind(fd, (struct sockaddr*)&addr, sizeof(addr));
    listen(fd, 64);
    return (int32_t)fd;
}"##),
    ("", "", "", r##"// Connect a TCP client to <host>:<port>. Resolves hostnames (via
// getaddrinfo) as well as dotted-quads, so reverse-proxy upstreams can
// be named. Returns the connected fd, or -1 on failure."##),
    ("int32_t", "__xlang_tcp_connect", "const char* host, int32_t port", r##"
    struct addrinfo hints, *res, *rp;
    memset(&hints, 0, sizeof(hints));
    hints.ai_family = AF_INET;
    hints.ai_socktype = SOCK_STREAM;
    char portstr[16];
    snprintf(portstr, sizeof(portstr), "%d", (int)port);
    if (getaddrinfo(host, portstr, &hints, &res) != 0) return -1;
    int fd = -1;
    for (rp = res; rp != NULL; rp = rp->ai_next) {
        fd = (int)socket(rp->ai_family, rp->ai_socktype, rp->ai_protocol);
        if (fd < 0) continue;
        if (connect(fd, rp->ai_addr, rp->ai_addrlen) == 0) break;
        close(fd); fd = -1;
    }
    freeaddrinfo(res);
    return (int32_t)fd;
}"##),
    ("char*", "__xlang_recv_str", "int32_t fd", r##"
    static char buf[65536];
    ssize_t n = recv(fd, buf, 65535, 0);
    if (n < 0) n = 0;
    buf[n] = 0;
    return buf;
}"##),
    ("", "", "", r##"// Drain ALL currently-buffered data on a non-blocking socket into one
// owned, growable string (loops recv until it returns <= 0 — EAGAIN on a
// non-blocking socket, or peer close). Lets a server read a full HTTP
// request (headers + body) that exceeds recv_str's 64KB single-recv cap.
// Safe ONLY on non-blocking sockets: a blocking socket would hang here
// waiting for data that never arrives. Owned malloc'd buffer (unlike the
// static recv_str buffer, no aliasing across calls)."##),
    ("char*", "__xlang_recv_all", "int32_t fd", r##"
    size_t cap = 65536, len = 0;
    char* buf = (char*)malloc(cap);
    buf[0] = 0;
    for (;;) {
        if (len + 2 > cap) { cap *= 2; buf = (char*)realloc(buf, cap); }
        ssize_t n = recv(fd, buf + len, cap - len - 1, 0);
        if (n > 0) { len += (size_t)n; buf[len] = 0; continue; }
        break;
    }
    return buf;
}"##),
    // Input and output with explicit lengths.
    ("", "", "", r##"// Binary-safe byte I/O: a static receive buffer with EXPLICIT lengths,
// so NUL bytes in the stream don't truncate (every string builtin above
// is strlen-terminated and stops at NUL). Used by the reverse proxy to
// relay binary response bodies (images, compressed, ...).
static char __xlang_rbuf[65536];
// recv up to 65535 bytes into __xlang_rbuf; NUL-terminate at the count so
// a text view (rbuf_str + str_find) works on the header region (headers
// are NUL-free; only body bytes past the first NUL are invisible). Returns
// the byte count, or 0 on EOF/error."##),
    ("int32_t", "__xlang_recv_n", "int32_t fd", r##"
    ssize_t n = recv(fd, __xlang_rbuf, 65535, 0);
    if (n < 0) n = 0;
    __xlang_rbuf[n] = 0;
    return (int32_t)n;
}"##),
    ("", "", "", r##"// Read up to 65535 bytes from ANY fd (stdin, file, pipe) into __xlang_rbuf;
// NUL-terminate at the count; return the count (0 = EOF). Binary-safe —
// the recv_n analogue for regular fds (recv_n uses recv(), sockets only)."##),
    ("int32_t", "__xlang_read_rbuf", "int32_t fd", r##"
    ssize_t n = read(fd, __xlang_rbuf, 65535);
    if (n < 0) n = 0;
    __xlang_rbuf[n] = 0;
    return (int32_t)n;
}"##),
    ("", "", "", r##"// View __xlang_rbuf as a (NUL-terminated) C string — valid for the header
// region only; body bytes after the first NUL are invisible to str_* builtins."##),
    ("const char*", "__xlang_rbuf_str", "", " return __xlang_rbuf; }"),
    ("", "", "", r##"// Send exactly len bytes from __xlang_rbuf (loops on partial writes for
// blocking sockets; binary-safe — NULs are ignored). Returns bytes sent."##),
    ("int32_t", "__xlang_send_rbuf", "int32_t fd, int32_t len", r##"
    size_t off = 0;
    size_t remaining = (size_t)len;
    while (remaining > 0) {
        ssize_t s = send(fd, __xlang_rbuf + off, remaining, 0);
        if (s > 0) { off += (size_t)s; remaining -= (size_t)s; continue; }
        if (s < 0 && (errno == EAGAIN || errno == EWOULDBLOCK)) { sched_yield(); continue; }
        break;
    }
    return (int32_t)((size_t)len - remaining);
}"##),
    ("", "", "", r##"// Write len bytes from __xlang_rbuf+offset to ANY fd (file, stdout, ...)
// via write(2) — binary-safe (NULs ignored), unlike send_rbuf which uses
// send() (sockets only). Loops past partial writes. Used by httpget to
// save binary response bodies to a file or stdout."##),
    ("int32_t", "__xlang_write_rbuf", "int32_t fd, int32_t offset, int32_t len", r##"
    size_t off = (size_t)offset;
    size_t remaining = (size_t)len;
    while (remaining > 0) {
        ssize_t s = write(fd, __xlang_rbuf + off, remaining);
        if (s > 0) { off += (size_t)s; remaining -= (size_t)s; continue; }
        if (s < 0 && errno == EINTR) { continue; }
        break;
    }
    return (int32_t)((size_t)len - remaining);
}"##),
    // The event loop.
    ("", "", "", r##"// epoll event-loop support. A single global epoll fd + a ready-fd
// ring buffer, so xlang treats epoll_wait(timeout) as "next ready fd".
#define __XLANG_EPQ_CAP 8192
static int32_t __xlang_epfd_g = -1;
static int __xlang_epq_fd[__XLANG_EPQ_CAP];
static int __xlang_epq_head = 0;
static int __xlang_epq_tail = 0;"##),
    ("int32_t", "__xlang_epoll_create", "", r##"
    __xlang_epfd_g = epoll_create1(0);
    return __xlang_epfd_g;
}"##),
    ("int32_t", "__xlang_epoll_add", "int32_t fd", r##"
    struct epoll_event ev;
    ev.events = EPOLLIN;
    ev.data.fd = fd;
    return epoll_ctl(__xlang_epfd_g, EPOLL_CTL_ADD, fd, &ev) == 0 ? 0 : -1;
}"##),
    ("int32_t", "__xlang_epoll_del", "int32_t fd", r##"
    epoll_ctl(__xlang_epfd_g, EPOLL_CTL_DEL, fd, 0);
    return 0;
}"##),
    ("int32_t", "__xlang_epoll_wait", "int32_t timeout", r##"
    if (__xlang_epq_head != __xlang_epq_tail) {
        int fd = __xlang_epq_fd[__xlang_epq_head];
        __xlang_epq_head = (__xlang_epq_head + 1) % __XLANG_EPQ_CAP;
        return (int32_t)fd;
    }
    struct epoll_event events[256];
    int n = epoll_wait(__xlang_epfd_g, events, 256, timeout);
    if (n <= 0) return -1;
    int i;
    for (i = 0; i < n; i++) {
        __xlang_epq_fd[__xlang_epq_tail] = events[i].data.fd;
        __xlang_epq_tail = (__xlang_epq_tail + 1) % __XLANG_EPQ_CAP;
    }
    int fd = __xlang_epq_fd[__xlang_epq_head];
    __xlang_epq_head = (__xlang_epq_head + 1) % __XLANG_EPQ_CAP;
    return (int32_t)fd;
}"##),
    ("int32_t", "__xlang_set_nonblock", "int32_t fd", r##"
    int flags = fcntl(fd, F_GETFL, 0);
    return fcntl(fd, F_SETFL, flags | O_NONBLOCK) == 0 ? 0 : -1;
}"##),
    ("int32_t", "__xlang_set_nodelay", "int32_t fd", r##"
    int flag = 1;
    return setsockopt(fd, IPPROTO_TCP, TCP_NODELAY, &flag, sizeof(flag)) == 0 ? 0 : -1;
}"##),
    // File descriptors, pipes and child processes.
    ("int32_t", "__xlang_open_read", "const char* path", r##"
    return (int32_t)open(path, O_RDONLY);
}"##),
    ("int32_t", "__xlang_open_write", "const char* path", r##"
    return (int32_t)open(path, O_WRONLY | O_CREAT | O_TRUNC, 0644);
}"##),
    ("int32_t", "__xlang_open_append", "const char* path", r##"
    return (int32_t)open(path, O_WRONLY | O_CREAT | O_APPEND, 0644);
}"##),
    ("", "", "", r##"// lseek(fd, offset, SEEK_SET) — set the file offset. Returns the new
// offset, or -1. Used by dd for skip/seek (random file access)."##),
    ("int32_t", "__xlang_seek", "int32_t fd, int32_t offset", r##"
    return (int32_t)lseek(fd, (off_t)offset, SEEK_SET);
}"##),
    ("", "", "", r##"// Process control for the shell: pipe(2) ends in globals (one pipeline
// at a time — the shell waits on each line before reading the next).
static int32_t __xlang_pipe_r = -1;
static int32_t __xlang_pipe_w = -1;"##),
    ("int32_t", "__xlang_make_pipe", "", r##"
    int p[2];
    if (pipe(p) != 0) return -1;
    __xlang_pipe_r = p[0];
    __xlang_pipe_w = p[1];
    return 0;
}"##),
    ("int32_t", "__xlang_pipe_read_end", "", " return __xlang_pipe_r; }"),
    ("", "", "", r##"// Indexed pipe pool: supports N-stage pipelines (up to 17 stages).
#define __XLANG_PIPE_POOL 16
static int32_t __xlang_pr[__XLANG_PIPE_POOL];
static int32_t __xlang_pw[__XLANG_PIPE_POOL];"##),
    ("int32_t", "__xlang_make_pipe_at", "int32_t idx", r##"
    int p[2];
    if (idx < 0 || idx >= __XLANG_PIPE_POOL) return -1;
    if (pipe(p) != 0) return -1;
    __xlang_pr[idx] = p[0];
    __xlang_pw[idx] = p[1];
    return 0;
}"##),
    ("int32_t", "__xlang_pipe_r_at", "int32_t idx", r##"
    return (idx >= 0 && idx < __XLANG_PIPE_POOL) ? __xlang_pr[idx] : -1;
}"##),
    ("int32_t", "__xlang_pipe_w_at", "int32_t idx", r##"
    return (idx >= 0 && idx < __XLANG_PIPE_POOL) ? __xlang_pw[idx] : -1;
}"##),
    ("int32_t", "__xlang_pipe_write_end", "", " return __xlang_pipe_w; }"),
    ("int32_t", "__xlang_dup2", "int32_t oldfd, int32_t newfd", r##"
    return dup2(oldfd, newfd) < 0 ? -1 : 0;
}"##),
    ("int32_t", "__xlang_exec_sh", "const char* cmd", r##"
    execl("/bin/sh", "sh", "-c", cmd, (char*)NULL);
    return -1;
}"##),
    ("", "", "", r##"// Tokenize cmd by whitespace and execvp(argv[0], argv) — PATH-based, so a
// shell with PATH=xlang-bin runs ONLY xlang coreutils (a pure xlang
// userland). Returns -1 only if exec fails (child should then exit)."##),
    ("int32_t", "__xlang_exec_split", "const char* cmd", r##"
    char buf[4096];
    strncpy(buf, cmd, 4095); buf[4095] = 0;
    char* argv[128];
    int ac = 0;
    char* p = buf;
    while (*p) {
        while (*p == ' ' || *p == '\t') p++;
        if (!*p) break;
        if (ac >= 127) break;
        argv[ac++] = p;
        while (*p && *p != ' ' && *p != '\t') p++;
        if (*p) { *p = 0; p++; }
    }
    argv[ac] = (char*)NULL;
    if (ac == 0) return -1;
    execvp(argv[0], argv);
    return -1;
}"##),
    ("int32_t", "__xlang_wait_child", "", r##"
    int st = 0;
    pid_t p = wait(&st);
    return (int32_t)p;
}"##),
    ("int32_t", "__xlang_wait_status", "", r##"
    int st = 0;
    wait(&st);
    if (WIFEXITED(st)) return WEXITSTATUS(st);
    return 1;
}"##),
    ("", "", "", r##"// waitpid for a SPECIFIC child, return its exit status. If the child was
// killed by a signal, return 128+signo (shell convention, e.g. SIGTERM
// =15 -> 143). Used by timeout to wait for the command child."##),
    ("int32_t", "__xlang_wait_pid_status", "int32_t pid", r##"
    int st = 0;
    waitpid((pid_t)pid, &st, 0);
    if (WIFEXITED(st)) return WEXITSTATUS(st);
    if (WIFSIGNALED(st)) return 128 + WTERMSIG(st);
    return 1;
}"##),
    ("char*", "__xlang_read_fd", "int32_t fd", r##"
    size_t cap = 65536, len = 0;
    char* buf = (char*)malloc(cap);
    ssize_t r;
    while ((r = read(fd, buf + len, cap - len)) > 0) {
        len += (size_t)r;
        if (len + 1 >= cap) { cap *= 2; buf = (char*)realloc(buf, cap); }
    }
    buf[len] = 0;
    return buf;
}"##),
    ("int32_t", "__xlang_setenv", "const char* name, const char* value", r##"
    return setenv(name, value, 1) == 0 ? 0 : -1;
}"##),
    // The cache of open files, and `sendfile`.
    ("", "", "", r##"// File fd cache: hot files keep their fd open + size known, so a request
// skips open/fstat/close (what nginx does). Simple linear map, cap 512.
#define __XLANG_FC_N 512
static char* __xlang_fc_path[__XLANG_FC_N];
static int __xlang_fc_fd[__XLANG_FC_N];
static int32_t __xlang_fc_size[__XLANG_FC_N];
static int __xlang_fc_len = 0;"##),
    ("int32_t", "__xlang_cache_open", "const char* path", r##"
    int i;
    for (i = 0; i < __xlang_fc_len; i++) {
        if (strcmp(__xlang_fc_path[i], path) == 0) return (int32_t)__xlang_fc_fd[i];
    }
    if (__xlang_fc_len >= __XLANG_FC_N) return -1;
    int fd = open(path, O_RDONLY);
    if (fd < 0) return -1;
    struct stat st;
    if (fstat(fd, &st) != 0) { close(fd); return -1; }
    __xlang_fc_path[__xlang_fc_len] = strdup(path);
    __xlang_fc_fd[__xlang_fc_len] = fd;
    __xlang_fc_size[__xlang_fc_len] = (int32_t)st.st_size;
    __xlang_fc_len++;
    return (int32_t)fd;
}"##),
    ("int32_t", "__xlang_cache_size", "const char* path", r##"
    int i;
    for (i = 0; i < __xlang_fc_len; i++) {
        if (strcmp(__xlang_fc_path[i], path) == 0) return __xlang_fc_size[i];
    }
    return -1;
}"##),
    ("int32_t", "__xlang_sendfile_fd", "int32_t out_fd, int32_t in_fd, int32_t len", r##"
    off_t off = 0;
    size_t remaining = (size_t)len;
    while (remaining > 0) {
        ssize_t s = sendfile(out_fd, in_fd, &off, remaining);
        if (s > 0) { remaining -= (size_t)s; continue; }
        // non-blocking socket buffer full: retry when writable. This keeps
        // the send complete (no truncation) on non-blocking sockets while
        // staying out of the way for small bodies that never hit EAGAIN.
        if (s < 0 && (errno == EAGAIN || errno == EWOULDBLOCK)) { sched_yield(); continue; }
        break;
    }
    return (int32_t)((size_t)len - remaining);
}"##),
    ("", "", "", r##"// Like sendfile_fd but starts at a given byte offset — used for HTTP 206
// Partial Content / Range requests. `off` is the starting offset; the
// kernel sendfile(2) advances its own offset pointer from there."##),
    ("int32_t", "__xlang_sendfile_range", "int32_t out_fd, int32_t in_fd, int32_t offset, int32_t len", r##"
    off_t off = (off_t)offset;
    size_t remaining = (size_t)len;
    while (remaining > 0) {
        ssize_t s = sendfile(out_fd, in_fd, &off, remaining);
        if (s > 0) { remaining -= (size_t)s; continue; }
        if (s < 0 && (errno == EAGAIN || errno == EWOULDBLOCK)) { sched_yield(); continue; }
        break;
    }
    return (int32_t)((size_t)len - remaining);
}"##),
    ("", "", "", "// Copy a file to standard output. The number of bytes, or -1."),
    ("int32_t", "__xlang_sendfile_stdout", "const char* path", r##"
    int fd = open(path, O_RDONLY);
    if (fd < 0) return -1;
    fflush(stdout);
    char buf[65536];
    int32_t total = 0;
    ssize_t n;
    while ((n = read(fd, buf, sizeof(buf))) > 0) {
        ssize_t done = 0;
        while (done < n) {
            ssize_t w = write(1, buf + done, (size_t)(n - done));
            if (w <= 0) { close(fd); return -1; }
            done += w;
        }
        total += (int32_t)n;
    }
    close(fd);
    return n < 0 ? -1 : total;
}"##),
    // Directories, file attributes and the environment.
    ("int32_t", "__xlang_dir_count", "const char* path", r##"
    DIR* d = opendir(path);
    if (!d) return 0;
    int32_t n = 0;
    while (readdir(d)) n++;
    closedir(d);
    return n;
}"##),
    ("char*", "__xlang_dir_entry", "const char* path, int32_t idx", r##"
    DIR* d = opendir(path);
    if (!d) return "";
    struct dirent* e;
    int32_t i = 0;
    while ((e = readdir(d))) {
        if (i == idx) {
            char* copy = (char*)malloc(strlen(e->d_name) + 1);
            strcpy(copy, e->d_name);
            closedir(d);
            return copy;
        }
        i++;
    }
    closedir(d);
    return "";
}"##),
    ("int32_t", "__xlang_is_dir", "const char* path", r##"
    struct stat st;
    if (stat(path, &st) != 0) return 0;
    return S_ISDIR(st.st_mode) ? 1 : 0;
}"##),
    ("int32_t", "__xlang_file_size", "const char* path", r##"
    struct stat st;
    if (stat(path, &st) != 0) return 0;
    return (int32_t)st.st_size;
}"##),
    ("int32_t", "__xlang_file_exists", "const char* path", r##"
    struct stat st;
    return stat(path, &st) == 0 ? 1 : 0;
}"##),
    ("", "", "", r##"// One stat(2) field by selector (so ls -l needs only one builtin):
// 0=mode, 1=nlink, 2=uid, 3=gid, 4=size, 5=mtime. -1 on error."##),
    ("int32_t", "__xlang_stat_field", "const char* path, int32_t field", r##"
    struct stat st;
    if (stat(path, &st) != 0) return -1;
    switch (field) {
        case 0: return (int32_t)st.st_mode;
        case 1: return (int32_t)st.st_nlink;
        case 2: return (int32_t)st.st_uid;
        case 3: return (int32_t)st.st_gid;
        case 4: return (int32_t)st.st_size;
        case 5: return (int32_t)st.st_mtime;
    }
    return -1;
}"##),
    ("", "", "", "// ctime(t) without the trailing newline (for ls -l dates)."),
    ("char*", "__xlang_fmt_ctime", "int32_t t", r##"
    time_t tt = (time_t)t;
    char* s = ctime(&tt);
    if (!s) { char* e = (char*)malloc(1); e[0] = 0; return e; }
    char* out = strdup(s);
    int n = (int)strlen(out);
    if (n > 0 && out[n-1] == '\n') out[n-1] = 0;
    return out;
}"##),
    ("", "", "", "// HTTP-date (RFC 7231): Wed, 03 Jul 2024 12:00:00 GMT"),
    ("char*", "__xlang_fmt_http_date", "int32_t t", r##"
    time_t tt = (time_t)t;
    struct tm tm;
    gmtime_r(&tt, &tm);
    char* buf = (char*)malloc(32);
    strftime(buf, 32, "%a, %d %b %Y %H:%M:%S GMT", &tm);
    return buf;
}"##),
    ("char*", "__xlang_getcwd", "", r##"
    char* buf = (char*)malloc(4096);
    return getcwd(buf, 4096);
}"##),
    ("char*", "__xlang_readlink", "const char* path", r##"
    char* buf = (char*)malloc(4096);
    ssize_t n = readlink(path, buf, 4095);
    if (n < 0) { buf[0] = 0; return buf; }
    buf[n] = 0;
    return buf;
}"##),
    ("char*", "__xlang_realpath", "const char* path", r##"
    char* resolved = realpath(path, NULL);
    return resolved ? resolved : "";
}"##),
    ("", "", "", "extern char** environ;"),
    ("int32_t", "__xlang_env_count", "", r##"
    int32_t n = 0;
    while (environ[n]) n++;
    return n;
}"##),
    ("const char*", "__xlang_env_entry", "int32_t idx", r##"
    extern char** environ;
    int32_t n = 0;
    while (environ[n]) {
        if (n == idx) return environ[n];
        n++;
    }
    return "";
}"##),
    ("const char*", "__xlang_tty", "", r##"
    char* name = ttyname(0);
    return name ? name : "";
}"##),
    ("const char*", "__xlang_uname_machine", "", r##"
    struct utsname u;
    if (uname(&u) != 0) return "";
    char* m = (char*)malloc(strlen(u.machine) + 1);
    strcpy(m, u.machine);
    return m;
}"##),
    ("", "", "", r##"// A number about the file system that holds path: 0 the size of a block, 1 the
// blocks, 2 the free blocks, 3 those free for users, 4 the inodes, 5 the free
// inodes. -1 where there is no such number."##),
    ("int32_t", "__xlang_statvfs_field", "const char* path, int32_t field", r##"
    struct statvfs v;
    if (statvfs(path, &v) != 0) return -1;
    switch (field) {
        case 0: return (int32_t)v.f_frsize;
        case 1: return (int32_t)v.f_blocks;
        case 2: return (int32_t)v.f_bfree;
        case 3: return (int32_t)v.f_bavail;
        case 4: return (int32_t)v.f_files;
        case 5: return (int32_t)v.f_ffree;
    }
    return -1;
}"##),
    ("", "", "", "// The name of a user, or the number where there is none."),
    ("char*", "__xlang_uid_to_name", "int32_t uid", r##"
    struct passwd* p = getpwuid((uid_t)uid);
    return p ? strdup(p->pw_name) : __xlang_int_to_str(uid);
}"##),
    ("", "", "", "// The name of a group, or the number where there is none."),
    ("char*", "__xlang_gid_to_name", "int32_t gid", r##"
    struct group* g = getgrgid((gid_t)gid);
    return g ? strdup(g->gr_name) : __xlang_int_to_str(gid);
}"##),
    ("", "", "", r##"// Who is logged in: a line for each session, with the user, the terminal, the
// start as an epoch and the host, separated by tabs."##),
    ("char*", "__xlang_read_utmp", "", r##"
    size_t cap = 4096, len = 0;
    char* out = (char*)malloc(cap);
    out[0] = 0;
    setutent();
    struct utmp* u;
    while ((u = getutent()) != NULL) {
        if (u->ut_type != USER_PROCESS) continue;
        if (len + 512 > cap) { cap *= 2; out = (char*)realloc(out, cap); }
        len += (size_t)snprintf(out + len, cap - len, "%.32s\t%.32s\t%d\t%.256s\n", u->ut_user, u->ut_line, (int)u->ut_tv.tv_sec, u->ut_host);
    }
    endutent();
    return out;
}"##),
    ("", "", "", r##"// POSIX extended regular expressions. The last pattern stays compiled.
static regex_t __xlang_re;
static char* __xlang_re_pat = 0;"##),
    ("int32_t", "__xlang_regex_compile", "const char* pat", r##"
    if (__xlang_re_pat && strcmp(__xlang_re_pat, pat) == 0) return 1;
    if (__xlang_re_pat) { regfree(&__xlang_re); free(__xlang_re_pat); __xlang_re_pat = 0; }
    if (regcomp(&__xlang_re, pat, REG_EXTENDED) != 0) return 0;
    __xlang_re_pat = strdup(pat);
    return 1;
}"##),
    ("", "", "", "// The first match at or after from: where it starts, and in len how long it is."),
    ("int32_t", "__xlang_regex_search", "const char* s, const char* pat, int32_t from, int32_t* len", r##"
    regmatch_t m;
    if (from < 0 || (size_t)from > strlen(s) || !__xlang_regex_compile(pat)) return -1;
    if (regexec(&__xlang_re, s + from, 1, &m, from > 0 ? REG_NOTBOL : 0) != 0) return -1;
    *len = (int32_t)(m.rm_eo - m.rm_so);
    return from + (int32_t)m.rm_so;
}"##),
    ("int32_t", "__xlang_regex_match", "const char* s, const char* pat", r##"
    int32_t len = 0;
    return __xlang_regex_search(s, pat, 0, &len) >= 0;
}"##),
    ("int32_t", "__xlang_regex_find", "const char* s, const char* pat", r##"
    int32_t len = 0;
    return __xlang_regex_search(s, pat, 0, &len);
}"##),
    ("int32_t", "__xlang_regex_find_from", "const char* s, const char* pat, int32_t from", r##"
    int32_t len = 0;
    return __xlang_regex_search(s, pat, from, &len);
}"##),
    ("", "", "", "// How long the first match at or after from is, or -1 where there is none."),
    ("int32_t", "__xlang_regex_match_len", "const char* s, const char* pat, int32_t from", r##"
    int32_t len = 0;
    return __xlang_regex_search(s, pat, from, &len) < 0 ? -1 : len;
}"##),
    // TLS, behind a macro that only programs with a TLS call define.
    ("", "", "", r##"// TLS (HTTPS) via OpenSSL. Gated on __XLANG_TLS__ (defined only when a
// tls_* builtin is used) so non-TLS programs don't pull in OpenSSL.
// 64-bit SSL_CTX*/SSL* are hidden behind i32 table indices.
#ifdef __XLANG_TLS__
#include <openssl/ssl.h>
#include <openssl/err.h>
static SSL_CTX* __xlang_g_ctx[16];
static SSL* __xlang_g_ssl[256];
// Load cert+key into a new SSL_CTX; return a table index (or -1)."##),
    ("int32_t", "__xlang_tls_ctx_new", "const char* cert, const char* key", r##"
    OPENSSL_init_ssl(OPENSSL_INIT_LOAD_SSL_STRINGS, NULL);
    SSL_CTX* ctx = SSL_CTX_new(TLS_server_method());
    if (!ctx) return -1;
    if (SSL_CTX_use_certificate_file(ctx, cert, SSL_FILETYPE_PEM) <= 0 ||
        SSL_CTX_use_PrivateKey_file(ctx, key, SSL_FILETYPE_PEM) <= 0) {
        SSL_CTX_free(ctx); return -1;
    }
    for (int i = 0; i < 16; i++) if (!__xlang_g_ctx[i]) { __xlang_g_ctx[i] = ctx; return i; }
    SSL_CTX_free(ctx); return -1;
}"##),
    ("", "", "", "// TLS-accept on fd (blocking handshake); return an SSL table index (or -1)."),
    ("int32_t", "__xlang_tls_accept", "int32_t ci, int32_t fd", r##"
    SSL* ssl = SSL_new(__xlang_g_ctx[ci]);
    if (!ssl) return -1;
    SSL_set_fd(ssl, fd);
    if (SSL_accept(ssl) <= 0) { SSL_free(ssl); return -1; }
    for (int i = 0; i < 256; i++) if (!__xlang_g_ssl[i]) { __xlang_g_ssl[i] = ssl; return i; }
    SSL_free(ssl); return -1;
}"##),
    ("", "", "", "// Read up to 64KB from a TLS connection into an owned, NUL-terminated buffer."),
    ("char*", "__xlang_tls_read", "int32_t si", r##"
    char* buf = (char*)malloc(65536);
    int n = SSL_read(__xlang_g_ssl[si], buf, 65535);
    if (n < 0) n = 0;
    buf[n] = 0;
    return buf;
}"##),
    ("", "", "", "// Write a string to a TLS connection."),
    ("int32_t", "__xlang_tls_write", "int32_t si, const char* s", r##"
    return (int32_t)SSL_write(__xlang_g_ssl[si], s, strlen(s));
}"##),
    ("", "", "", "// Shut down + free a TLS connection and release its table slot."),
    ("int32_t", "__xlang_tls_close", "int32_t si", r##"
    if (__xlang_g_ssl[si]) {
        SSL_shutdown(__xlang_g_ssl[si]);
        SSL_free(__xlang_g_ssl[si]);
        __xlang_g_ssl[si] = NULL;
    }
    return 0;
}"##),
    ("", "", "", "#endif"),
    ("", "", "", "#endif"),
    ("", "", "", ""),
];

/// Where the part for networking, files and processes begins: with the test for
/// the only system that it is for.
pub const GUARD: usize = 89;

/// Where that part ends.
pub const GUARD_END: usize = 194;

/// The text of a piece.
pub open spec fn piece_text(p: (&'static str, &'static str, &'static str, &'static str)) -> Seq<char> {
    if p.1@ == ""@ {
        p.3@
    } else {
        p.0@ + " "@ + p.1@ + "("@ + p.2@ + ") {"@ + p.3@
    }
}

/// The lines of the first `n` pieces.
pub open spec fn lines_before(n: int) -> Seq<Seq<char>>
    decreases n,
{
    if n <= 0 || n > PIECES@.len() {
        Seq::empty()
    } else {
        lines_before(n - 1) + text::lines_of(piece_text(PIECES@[n - 1]))
    }
}

/// The lines of the runtime.
#[verifier::opaque]
pub open spec fn preamble() -> Seq<Seq<char>> {
    lines_before(PIECES@.len() as int)
}

/// The lines of the first pieces stand first.
pub proof fn lemma_lines_before(k: int, n: int)
    requires
        0 <= k <= n <= PIECES@.len(),
    ensures
        lines_before(k).len() <= lines_before(n).len(),
        lines_before(k) == lines_before(n).take(lines_before(k).len() as int),
    decreases n - k,
{
    if k < n {
        lemma_lines_before(k, n - 1);
        let a = lines_before(k);
        assert(lines_before(n).take(a.len() as int) =~= lines_before(n - 1).take(a.len() as int));
    } else {
        assert(lines_before(n).take(lines_before(n).len() as int) =~= lines_before(n));
    }
}

/// Whether the runtime defines a function.
pub open spec fn defines(name: Seq<char>) -> bool {
    exists|k: int| 0 <= k < PIECES@.len() && (#[trigger] PIECES@[k]).1@ == name
}

/// The text of a piece.
pub fn render(i: usize) -> (r: String)
    requires
        i < PIECES@.len(),
    ensures
        r@ == piece_text(PIECES@[i as int]),
{
    let p = PIECES[i];
    if text::same(p.1, "") {
        p.3.to_string()
    } else {
        let head = text::cat6(p.0, " ", p.1, "(", p.2, ") {");
        text::cat2(head.as_str(), p.3)
    }
}

} // verus!
