//! The fixed standard-library import-path set that the classifier's
//! `"standard"` section matches.

use vstd::prelude::*;

use crate::text::str_eq;

verus! {

pub open spec fn spec_standard_import_a(s: Seq<char>) -> bool {
    s == "archive/tar"@
    || s == "archive/zip"@
    || s == "arena"@
    || s == "bufio"@
    || s == "bytes"@
    || s == "compress/bzip2"@
    || s == "compress/flate"@
    || s == "compress/gzip"@
    || s == "compress/lzw"@
    || s == "compress/zlib"@
    || s == "container/heap"@
    || s == "container/list"@
    || s == "container/ring"@
    || s == "context"@
    || s == "crypto"@
    || s == "crypto/aes"@
    || s == "crypto/cipher"@
    || s == "crypto/des"@
    || s == "crypto/dsa"@
    || s == "crypto/ecdh"@
}

fn standard_import_a(s: &str) -> (r: bool)
    ensures
        r == spec_standard_import_a(s@),
{
    str_eq(s, "archive/tar")
    || str_eq(s, "archive/zip")
    || str_eq(s, "arena")
    || str_eq(s, "bufio")
    || str_eq(s, "bytes")
    || str_eq(s, "compress/bzip2")
    || str_eq(s, "compress/flate")
    || str_eq(s, "compress/gzip")
    || str_eq(s, "compress/lzw")
    || str_eq(s, "compress/zlib")
    || str_eq(s, "container/heap")
    || str_eq(s, "container/list")
    || str_eq(s, "container/ring")
    || str_eq(s, "context")
    || str_eq(s, "crypto")
    || str_eq(s, "crypto/aes")
    || str_eq(s, "crypto/cipher")
    || str_eq(s, "crypto/des")
    || str_eq(s, "crypto/dsa")
    || str_eq(s, "crypto/ecdh")
}

pub open spec fn spec_standard_import_b(s: Seq<char>) -> bool {
    s == "crypto/ecdsa"@
    || s == "crypto/ed25519"@
    || s == "crypto/elliptic"@
    || s == "crypto/hmac"@
    || s == "crypto/md5"@
    || s == "crypto/rand"@
    || s == "crypto/rc4"@
    || s == "crypto/rsa"@
    || s == "crypto/sha1"@
    || s == "crypto/sha256"@
    || s == "crypto/sha512"@
    || s == "crypto/subtle"@
    || s == "crypto/tls"@
    || s == "crypto/x509"@
    || s == "crypto/x509/pkix"@
    || s == "database/sql"@
    || s == "database/sql/driver"@
    || s == "debug/buildinfo"@
    || s == "debug/dwarf"@
    || s == "debug/elf"@
}

fn standard_import_b(s: &str) -> (r: bool)
    ensures
        r == spec_standard_import_b(s@),
{
    str_eq(s, "crypto/ecdsa")
    || str_eq(s, "crypto/ed25519")
    || str_eq(s, "crypto/elliptic")
    || str_eq(s, "crypto/hmac")
    || str_eq(s, "crypto/md5")
    || str_eq(s, "crypto/rand")
    || str_eq(s, "crypto/rc4")
    || str_eq(s, "crypto/rsa")
    || str_eq(s, "crypto/sha1")
    || str_eq(s, "crypto/sha256")
    || str_eq(s, "crypto/sha512")
    || str_eq(s, "crypto/subtle")
    || str_eq(s, "crypto/tls")
    || str_eq(s, "crypto/x509")
    || str_eq(s, "crypto/x509/pkix")
    || str_eq(s, "database/sql")
    || str_eq(s, "database/sql/driver")
    || str_eq(s, "debug/buildinfo")
    || str_eq(s, "debug/dwarf")
    || str_eq(s, "debug/elf")
}

pub open spec fn spec_standard_import_c(s: Seq<char>) -> bool {
    s == "debug/gosym"@
    || s == "debug/macho"@
    || s == "debug/pe"@
    || s == "debug/plan9obj"@
    || s == "embed"@
    || s == "encoding"@
    || s == "encoding/ascii85"@
    || s == "encoding/asn1"@
    || s == "encoding/base32"@
    || s == "encoding/base64"@
    || s == "encoding/binary"@
    || s == "encoding/csv"@
    || s == "encoding/gob"@
    || s == "encoding/hex"@
    || s == "encoding/json"@
    || s == "encoding/pem"@
    || s == "encoding/xml"@
    || s == "errors"@
    || s == "expvar"@
    || s == "flag"@
}

fn standard_import_c(s: &str) -> (r: bool)
    ensures
        r == spec_standard_import_c(s@),
{
    str_eq(s, "debug/gosym")
    || str_eq(s, "debug/macho")
    || str_eq(s, "debug/pe")
    || str_eq(s, "debug/plan9obj")
    || str_eq(s, "embed")
    || str_eq(s, "encoding")
    || str_eq(s, "encoding/ascii85")
    || str_eq(s, "encoding/asn1")
    || str_eq(s, "encoding/base32")
    || str_eq(s, "encoding/base64")
    || str_eq(s, "encoding/binary")
    || str_eq(s, "encoding/csv")
    || str_eq(s, "encoding/gob")
    || str_eq(s, "encoding/hex")
    || str_eq(s, "encoding/json")
    || str_eq(s, "encoding/pem")
    || str_eq(s, "encoding/xml")
    || str_eq(s, "errors")
    || str_eq(s, "expvar")
    || str_eq(s, "flag")
}

pub open spec fn spec_standard_import_d(s: Seq<char>) -> bool {
    s == "fmt"@
    || s == "go/ast"@
    || s == "go/build"@
    || s == "go/build/constraint"@
    || s == "go/constant"@
    || s == "go/doc"@
    || s == "go/doc/comment"@
    || s == "go/format"@
    || s == "go/importer"@
    || s == "go/parser"@
    || s == "go/printer"@
    || s == "go/scanner"@
    || s == "go/token"@
    || s == "go/types"@
    || s == "hash"@
    || s == "hash/adler32"@
    || s == "hash/crc32"@
    || s == "hash/crc64"@
    || s == "hash/fnv"@
    || s == "hash/maphash"@
}

fn standard_import_d(s: &str) -> (r: bool)
    ensures
        r == spec_standard_import_d(s@),
{
    str_eq(s, "fmt")
    || str_eq(s, "go/ast")
    || str_eq(s, "go/build")
    || str_eq(s, "go/build/constraint")
    || str_eq(s, "go/constant")
    || str_eq(s, "go/doc")
    || str_eq(s, "go/doc/comment")
    || str_eq(s, "go/format")
    || str_eq(s, "go/importer")
    || str_eq(s, "go/parser")
    || str_eq(s, "go/printer")
    || str_eq(s, "go/scanner")
    || str_eq(s, "go/token")
    || str_eq(s, "go/types")
    || str_eq(s, "hash")
    || str_eq(s, "hash/adler32")
    || str_eq(s, "hash/crc32")
    || str_eq(s, "hash/crc64")
    || str_eq(s, "hash/fnv")
    || str_eq(s, "hash/maphash")
}

pub open spec fn spec_standard_import_e(s: Seq<char>) -> bool {
    s == "html"@
    || s == "html/template"@
    || s == "image"@
    || s == "image/color"@
    || s == "image/color/palette"@
    || s == "image/draw"@
    || s == "image/gif"@
    || s == "image/jpeg"@
    || s == "image/png"@
    || s == "index/suffixarray"@
    || s == "io"@
    || s == "io/fs"@
    || s == "io/ioutil"@
    || s == "log"@
    || s == "log/syslog"@
    || s == "math"@
    || s == "math/big"@
    || s == "math/bits"@
    || s == "math/cmplx"@
    || s == "math/rand"@
}

fn standard_import_e(s: &str) -> (r: bool)
    ensures
        r == spec_standard_import_e(s@),
{
    str_eq(s, "html")
    || str_eq(s, "html/template")
    || str_eq(s, "image")
    || str_eq(s, "image/color")
    || str_eq(s, "image/color/palette")
    || str_eq(s, "image/draw")
    || str_eq(s, "image/gif")
    || str_eq(s, "image/jpeg")
    || str_eq(s, "image/png")
    || str_eq(s, "index/suffixarray")
    || str_eq(s, "io")
    || str_eq(s, "io/fs")
    || str_eq(s, "io/ioutil")
    || str_eq(s, "log")
    || str_eq(s, "log/syslog")
    || str_eq(s, "math")
    || str_eq(s, "math/big")
    || str_eq(s, "math/bits")
    || str_eq(s, "math/cmplx")
    || str_eq(s, "math/rand")
}

pub open spec fn spec_standard_import_f(s: Seq<char>) -> bool {
    s == "mime"@
    || s == "mime/multipart"@
    || s == "mime/quotedprintable"@
    || s == "net"@
    || s == "net/http"@
    || s == "net/http/cgi"@
    || s == "net/http/cookiejar"@
    || s == "net/http/fcgi"@
    || s == "net/http/httptest"@
    || s == "net/http/httptrace"@
    || s == "net/http/httputil"@
    || s == "net/http/pprof"@
    || s == "net/mail"@
    || s == "net/netip"@
    || s == "net/rpc"@
    || s == "net/rpc/jsonrpc"@
    || s == "net/smtp"@
    || s == "net/textproto"@
    || s == "net/url"@
    || s == "os"@
}

fn standard_import_f(s: &str) -> (r: bool)
    ensures
        r == spec_standard_import_f(s@),
{
    str_eq(s, "mime")
    || str_eq(s, "mime/multipart")
    || str_eq(s, "mime/quotedprintable")
    || str_eq(s, "net")
    || str_eq(s, "net/http")
    || str_eq(s, "net/http/cgi")
    || str_eq(s, "net/http/cookiejar")
    || str_eq(s, "net/http/fcgi")
    || str_eq(s, "net/http/httptest")
    || str_eq(s, "net/http/httptrace")
    || str_eq(s, "net/http/httputil")
    || str_eq(s, "net/http/pprof")
    || str_eq(s, "net/mail")
    || str_eq(s, "net/netip")
    || str_eq(s, "net/rpc")
    || str_eq(s, "net/rpc/jsonrpc")
    || str_eq(s, "net/smtp")
    || str_eq(s, "net/textproto")
    || str_eq(s, "net/url")
    || str_eq(s, "os")
}

pub open spec fn spec_standard_import_g(s: Seq<char>) -> bool {
    s == "os/exec"@
    || s == "os/signal"@
    || s == "os/user"@
    || s == "path"@
    || s == "path/filepath"@
    || s == "plugin"@
    || s == "reflect"@
    || s == "regexp"@
    || s == "regexp/syntax"@
    || s == "runtime"@
    || s == "runtime/cgo"@
    || s == "runtime/coverage"@
    || s == "runtime/debug"@
    || s == "runtime/metrics"@
    || s == "runtime/pprof"@
    || s == "runtime/race"@
    || s == "runtime/trace"@
    || s == "sort"@
    || s == "strconv"@
    || s == "strings"@
}

fn standard_import_g(s: &str) -> (r: bool)
    ensures
        r == spec_standard_import_g(s@),
{
    str_eq(s, "os/exec")
    || str_eq(s, "os/signal")
    || str_eq(s, "os/user")
    || str_eq(s, "path")
    || str_eq(s, "path/filepath")
    || str_eq(s, "plugin")
    || str_eq(s, "reflect")
    || str_eq(s, "regexp")
    || str_eq(s, "regexp/syntax")
    || str_eq(s, "runtime")
    || str_eq(s, "runtime/cgo")
    || str_eq(s, "runtime/coverage")
    || str_eq(s, "runtime/debug")
    || str_eq(s, "runtime/metrics")
    || str_eq(s, "runtime/pprof")
    || str_eq(s, "runtime/race")
    || str_eq(s, "runtime/trace")
    || str_eq(s, "sort")
    || str_eq(s, "strconv")
    || str_eq(s, "strings")
}

pub open spec fn spec_standard_import_h(s: Seq<char>) -> bool {
    s == "sync"@
    || s == "sync/atomic"@
    || s == "syscall"@
    || s == "testing"@
    || s == "testing/fstest"@
    || s == "testing/iotest"@
    || s == "testing/quick"@
    || s == "text/scanner"@
    || s == "text/tabwriter"@
    || s == "text/template"@
    || s == "text/template/parse"@
    || s == "time"@
    || s == "time/tzdata"@
    || s == "unicode"@
    || s == "unicode/utf16"@
    || s == "unicode/utf8"@
    || s == "unsafe"@
}

fn standard_import_h(s: &str) -> (r: bool)
    ensures
        r == spec_standard_import_h(s@),
{
    str_eq(s, "sync")
    || str_eq(s, "sync/atomic")
    || str_eq(s, "syscall")
    || str_eq(s, "testing")
    || str_eq(s, "testing/fstest")
    || str_eq(s, "testing/iotest")
    || str_eq(s, "testing/quick")
    || str_eq(s, "text/scanner")
    || str_eq(s, "text/tabwriter")
    || str_eq(s, "text/template")
    || str_eq(s, "text/template/parse")
    || str_eq(s, "time")
    || str_eq(s, "time/tzdata")
    || str_eq(s, "unicode")
    || str_eq(s, "unicode/utf16")
    || str_eq(s, "unicode/utf8")
    || str_eq(s, "unsafe")
}

/// `s` is one of the standard library's import paths.
pub open spec fn spec_is_standard_import(s: Seq<char>) -> bool {
    spec_standard_import_a(s)
    || spec_standard_import_b(s)
    || spec_standard_import_c(s)
    || spec_standard_import_d(s)
    || spec_standard_import_e(s)
    || spec_standard_import_f(s)
    || spec_standard_import_g(s)
    || spec_standard_import_h(s)
}

/// Membership in the fixed standard-library path set.
pub fn is_standard_import(s: &str) -> (r: bool)
    ensures
        r == spec_is_standard_import(s@),
{
    standard_import_a(s)
    || standard_import_b(s)
    || standard_import_c(s)
    || standard_import_d(s)
    || standard_import_e(s)
    || standard_import_f(s)
    || standard_import_g(s)
    || standard_import_h(s)
}

} // verus!
